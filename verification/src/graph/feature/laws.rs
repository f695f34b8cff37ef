//! What the feature graph of a package graph is sure to hold, and what
//! the resolver is sure to turn on with it.

use crate::errors::{ErrorView, FeatureGraphWarningView};
use crate::graph::cargo::{edge_enabled, lemma_resolved_follows, resolved, CargoOptionsView};
use crate::graph::dependency::{DependencyMetadataView, DependencyReqImplView, TargetPredicateView};
use crate::graph::feature::construct::{
    base_node, built_of, cross_all, cross_declarations, cross_features, cross_half, cross_kind,
    cross_link, dependency_warning, feature_index, feature_node, named_all, named_dep,
    named_package, named_token, named_tokens, named_warning, optional_node, predicate_of,
    split_feature_dep, to_base, to_base_edge, to_base_package, Built, FeatureEdgeView, Half,
    LabeledEdge,
};
use crate::graph::feature::FeatureGraph;
use crate::graph::graph_impl::{PackageGraphView, PackageMetadataView};
use crate::metadata::DependencyKind;
use crate::petgraph_support::{flag_set, Edge};
use crate::target_spec::types::TargetEnumView;
use vstd::prelude::*;

verus! {

/// Whether `after` has every edge and every warning that `before` has.
pub open spec fn keeps(before: Built, after: Built) -> bool {
    &&& forall|x: LabeledEdge| #[trigger] before.edges.contains(x) ==> after.edges.contains(x)
    &&& forall|w: FeatureGraphWarningView| #[trigger]
        before.warnings.contains(w) ==> after.warnings.contains(w)
}

/// One more edge is there; the others stay, and so do the warnings.
pub proof fn lemma_edge_added(acc: Built, from: int, to: int, label: FeatureEdgeView, x: LabeledEdge)
    ensures
        keeps(acc, acc.edge(from, to, label)),
        acc.edge(from, to, label).edges.contains(x) <==> acc.edges.contains(x) || x == (
            from as usize,
            to as usize,
            label,
        ),
        acc.edge(from, to, label).warnings == acc.warnings,
{
    let after = acc.edge(from, to, label);
    assert forall|y: LabeledEdge| #[trigger] acc.edges.contains(y) implies after.edges.contains(
        y,
    ) by {
        let i = choose|i: int| 0 <= i < acc.edges.len() && acc.edges[i] == y;
        assert(after.edges[i] == y);
    }
    assert(after.edges[acc.edges.len() as int] == (from as usize, to as usize, label));
    if after.edges.contains(x) {
        let i = choose|i: int| 0 <= i < after.edges.len() && after.edges[i] == x;
        if i < acc.edges.len() {
            assert(acc.edges[i] == x);
        }
    }
}

/// One more warning is there; the others stay, and so do the edges.
pub proof fn lemma_warning_added(acc: Built, warning: FeatureGraphWarningView, w: FeatureGraphWarningView)
    ensures
        keeps(acc, acc.warning(warning)),
        acc.warning(warning).warnings.contains(w) <==> acc.warnings.contains(w) || w == warning,
        acc.warning(warning).edges == acc.edges,
{
    let after = acc.warning(warning);
    assert forall|y: FeatureGraphWarningView| #[trigger]
        acc.warnings.contains(y) implies after.warnings.contains(y) by {
        let i = choose|i: int| 0 <= i < acc.warnings.len() && acc.warnings[i] == y;
        assert(after.warnings[i] == y);
    }
    assert(after.warnings[acc.warnings.len() as int] == warning);
    if after.warnings.contains(w) {
        let i = choose|i: int| 0 <= i < after.warnings.len() && after.warnings[i] == w;
        if i < acc.warnings.len() {
            assert(acc.warnings[i] == w);
        }
    }
}

/// What an edge from one package to another stands for.
pub open spec fn cross_label(h: Half, predicate: TargetPredicateView) -> FeatureEdgeView {
    FeatureEdgeView::CrossPackage { kind: h.kind, predicate, optional: h.optional }
}

/// Whether `x` is the edge that a declaration adds for a feature that it
/// names: the package at the end has the feature, and the edge leads to
/// it, on the platforms of the declaration.
pub open spec fn names_edge(
    g: PackageGraphView,
    h: Half,
    target: Option<TargetEnumView>,
    name: Seq<char>,
    x: LabeledEdge,
) -> bool {
    match feature_index(g.packages[h.to].features, name) {
        Some(idx) => x == (
            h.from_node as usize,
            feature_node(g.packages, h.to, idx) as usize,
            cross_label(h, predicate_of(target)),
        ),
        None => false,
    }
}

/// Whether `w` is the warning that a declaration gives for a feature that
/// it names: the package at the end does not have the feature.
pub open spec fn names_warning(g: PackageGraphView, h: Half, name: Seq<char>, w: FeatureGraphWarningView) -> bool {
    feature_index(g.packages[h.to].features, name) is None && w == dependency_warning(g, h, name)
}

/// Whether `x` is an edge that one of the first `nf` features of a
/// declaration adds.
pub open spec fn features_add(
    g: PackageGraphView,
    h: Half,
    target: Option<TargetEnumView>,
    features: Seq<Seq<char>>,
    nf: int,
    x: LabeledEdge,
) -> bool {
    exists|i: int| 0 <= i < nf && names_edge(g, h, target, #[trigger] features[i], x)
}

/// Whether `w` is a warning that one of the first `nf` features of a
/// declaration gives.
pub open spec fn features_warn(
    g: PackageGraphView,
    h: Half,
    features: Seq<Seq<char>>,
    nf: int,
    w: FeatureGraphWarningView,
) -> bool {
    exists|i: int| 0 <= i < nf && names_warning(g, h, #[trigger] features[i], w)
}

/// Whether `x` is an edge that one of the first `nd` declarations adds
/// for a feature that it names.
pub open spec fn declarations_add_to(
    g: PackageGraphView,
    h: Half,
    declarations: Seq<(Option<TargetEnumView>, Seq<Seq<char>>)>,
    nd: int,
    x: LabeledEdge,
) -> bool {
    exists|d: int|
        0 <= d < nd && features_add(
            g,
            h,
            (#[trigger] declarations[d]).0,
            declarations[d].1,
            declarations[d].1.len() as int,
            x,
        )
}

/// Whether `w` is a warning that one of the first `nd` declarations gives
/// for a feature that it names.
pub open spec fn declarations_warn_to(
    g: PackageGraphView,
    h: Half,
    declarations: Seq<(Option<TargetEnumView>, Seq<Seq<char>>)>,
    nd: int,
    w: FeatureGraphWarningView,
) -> bool {
    exists|d: int|
        0 <= d < nd && features_warn(
            g,
            h,
            (#[trigger] declarations[d]).1,
            declarations[d].1.len() as int,
            w,
        )
}

/// Whether `x` is an edge that one of the declarations adds for a feature
/// that it names.
pub open spec fn declarations_add(
    g: PackageGraphView,
    h: Half,
    declarations: Seq<(Option<TargetEnumView>, Seq<Seq<char>>)>,
    x: LabeledEdge,
) -> bool {
    declarations_add_to(g, h, declarations, declarations.len() as int, x)
}

/// Whether `x` is the edge to the feature `default` of the package at the
/// end, which is there where the package has that feature and the default
/// features are built on some platform.
pub open spec fn default_edge(g: PackageGraphView, h: Half, req: DependencyReqImplView, x: LabeledEdge) -> bool {
    match feature_index(g.packages[h.to].features, "default"@) {
        Some(idx) => !req.default_features_if.is_empty() && x == (
            h.from_node as usize,
            feature_node(g.packages, h.to, idx) as usize,
            cross_label(h, req.default_features_if),
        ),
        None => false,
    }
}

/// Whether `x` is an edge that one half of one kind of a link adds: to
/// the base of the package at the end, to its feature `default`, or to a
/// feature that a declaration names.
pub open spec fn half_adds(g: PackageGraphView, h: Half, req: DependencyReqImplView, x: LabeledEdge) -> bool {
    req.target_features.len() > 0 && (x == (
        h.from_node as usize,
        base_node(g.packages, h.to) as usize,
        cross_label(h, req.build_if),
    ) || default_edge(g, h, req, x) || declarations_add(g, h, req.target_features, x))
}

/// The mandatory half of one kind of a link: its edges start from the
/// base of the package that has the dependency.
pub open spec fn mandatory_half(g: PackageGraphView, edge: Edge, kind: DependencyKind) -> Half {
    Half {
        from_node: base_node(g.packages, edge.0 as int),
        from: edge.0 as int,
        to: edge.1 as int,
        dep_name: g.links[edge.2 as int].dep_name,
        kind,
        optional: false,
    }
}

/// The optional half of one kind of a link: its edges start from the
/// feature that stands for the dependency.
pub open spec fn optional_half(g: PackageGraphView, edge: Edge, kind: DependencyKind) -> Half {
    Half {
        from_node: optional_node(g, edge),
        from: edge.0 as int,
        to: edge.1 as int,
        dep_name: g.links[edge.2 as int].dep_name,
        kind,
        optional: true,
    }
}

/// Whether `x` is an edge that one kind of a link adds.
pub open spec fn kind_adds(
    g: PackageGraphView,
    edge: Edge,
    kind: DependencyKind,
    metadata: Option<DependencyMetadataView>,
    x: LabeledEdge,
) -> bool {
    match metadata {
        None => false,
        Some(m) => half_adds(g, mandatory_half(g, edge, kind), m.dependency_req.mandatory, x)
            || half_adds(g, optional_half(g, edge, kind), m.dependency_req.optional, x),
    }
}

/// Whether `x` is an edge that a link of the package graph adds: by its
/// normal or its build dependency, or, where the package that has the
/// dependency is in the workspace, by its development dependency.
pub open spec fn link_adds(g: PackageGraphView, edge: Edge, x: LabeledEdge) -> bool {
    let link = g.links[edge.2 as int];
    ||| kind_adds(g, edge, DependencyKind::Normal, link.normal, x)
    ||| kind_adds(g, edge, DependencyKind::Build, link.build, x)
    ||| (g.packages[edge.0 as int].workspace_path is Some && kind_adds(
        g,
        edge,
        DependencyKind::Development,
        link.dev,
        x,
    ))
}

/// Whether `x` is the edge that a token of the named feature `f` of the
/// package `p` adds: the token names a feature of the package, or one of
/// a dependency of it, that is there.
pub open spec fn token_adds(g: PackageGraphView, p: int, f: int, token: Seq<char>, x: LabeledEdge) -> bool {
    let (dep, feature) = split_feature_dep(token);
    let from = feature_node(g.packages, p, f);
    match dep {
        Some(dep) => match named_dep(g, p, dep) {
            Some(edge) => match feature_index(g.packages[edge.1 as int].features, feature) {
                Some(idx) => x == (
                    from as usize,
                    feature_node(g.packages, edge.1 as int, idx) as usize,
                    FeatureEdgeView::FeatureDependency,
                ),
                None => false,
            },
            None => false,
        },
        None => match feature_index(g.packages[p].features, feature) {
            Some(idx) => x == (
                from as usize,
                feature_node(g.packages, p, idx) as usize,
                FeatureEdgeView::FeatureDependency,
            ),
            None => false,
        },
    }
}

/// Whether `x` is an edge that the named feature `f` of the package `p`
/// adds by one of its tokens.
pub open spec fn feature_adds(g: PackageGraphView, p: int, f: int, x: LabeledEdge) -> bool {
    match g.packages[p].features[f].1 {
        Some(tokens) => tokens_add(g, p, f, tokens, tokens.len() as int, x),
        None => false,
    }
}

/// Whether `w` is a warning that one half of one kind of a link gives:
/// one of its declarations names a feature that the package at the end
/// does not have.
pub open spec fn half_warns(g: PackageGraphView, h: Half, req: DependencyReqImplView, w: FeatureGraphWarningView) -> bool {
    req.target_features.len() > 0 && declarations_warn_to(
        g,
        h,
        req.target_features,
        req.target_features.len() as int,
        w,
    )
}

/// Whether `w` is a warning that one kind of a link gives.
pub open spec fn kind_warns(
    g: PackageGraphView,
    edge: Edge,
    kind: DependencyKind,
    metadata: Option<DependencyMetadataView>,
    w: FeatureGraphWarningView,
) -> bool {
    match metadata {
        None => false,
        Some(m) => half_warns(g, mandatory_half(g, edge, kind), m.dependency_req.mandatory, w)
            || half_warns(g, optional_half(g, edge, kind), m.dependency_req.optional, w),
    }
}

/// Whether `w` is a warning that a link of the package graph gives.
pub open spec fn link_warns(g: PackageGraphView, edge: Edge, w: FeatureGraphWarningView) -> bool {
    let link = g.links[edge.2 as int];
    ||| kind_warns(g, edge, DependencyKind::Normal, link.normal, w)
    ||| kind_warns(g, edge, DependencyKind::Build, link.build, w)
    ||| (g.packages[edge.0 as int].workspace_path is Some && kind_warns(
        g,
        edge,
        DependencyKind::Development,
        link.dev,
        w,
    ))
}

/// Whether `w` is the warning that a token of the named feature `f` of
/// the package `p` gives: the token names a dependency that is not there,
/// or a feature that is not there.
pub open spec fn token_warns(
    g: PackageGraphView,
    p: int,
    f: int,
    token: Seq<char>,
    w: FeatureGraphWarningView,
) -> bool {
    let (dep, feature) = split_feature_dep(token);
    w == named_warning(g, p, f, feature) && match dep {
        Some(dep) => match named_dep(g, p, dep) {
            Some(edge) => feature_index(g.packages[edge.1 as int].features, feature) is None,
            None => true,
        },
        None => feature_index(g.packages[p].features, feature) is None,
    }
}

/// Whether `x` is an edge that one of the first `nt` tokens adds.
pub open spec fn tokens_add(
    g: PackageGraphView,
    p: int,
    f: int,
    tokens: Seq<Seq<char>>,
    nt: int,
    x: LabeledEdge,
) -> bool {
    exists|t: int| 0 <= t < nt && token_adds(g, p, f, #[trigger] tokens[t], x)
}

/// Whether `w` is a warning that one of the first `nt` tokens gives.
pub open spec fn tokens_warn(
    g: PackageGraphView,
    p: int,
    f: int,
    tokens: Seq<Seq<char>>,
    nt: int,
    w: FeatureGraphWarningView,
) -> bool {
    exists|t: int| 0 <= t < nt && token_warns(g, p, f, #[trigger] tokens[t], w)
}

/// Whether `w` is a warning that the named feature `f` of the package `p`
/// gives by one of its tokens.
pub open spec fn feature_warns(g: PackageGraphView, p: int, f: int, w: FeatureGraphWarningView) -> bool {
    match g.packages[p].features[f].1 {
        Some(tokens) => tokens_warn(g, p, f, tokens, tokens.len() as int, w),
        None => false,
    }
}

/// Whether `x` is the edge from one of the first `nf` features of the
/// package `p` to the package.
pub open spec fn is_to_base_of(packages: Seq<PackageMetadataView>, p: int, nf: int, x: LabeledEdge) -> bool {
    exists|f: int| 0 <= f < nf && x == #[trigger] to_base_edge(packages, p, f)
}

/// Whether `x` is the edge from a feature of one of the first `np`
/// packages to its package.
pub open spec fn is_to_base(packages: Seq<PackageMetadataView>, np: int, x: LabeledEdge) -> bool {
    exists|p: int|
        0 <= p < np && #[trigger] is_to_base_of(packages, p, packages[p].features.len() as int, x)
}

/// Whether `x` is an edge that one of the first `nf` features of the
/// package `p` adds by a token.
pub open spec fn package_adds(g: PackageGraphView, p: int, nf: int, x: LabeledEdge) -> bool {
    exists|f: int| 0 <= f < nf && #[trigger] feature_adds(g, p, f, x)
}

/// Whether `w` is a warning that one of the first `nf` features of the
/// package `p` gives by a token.
pub open spec fn package_warns(g: PackageGraphView, p: int, nf: int, w: FeatureGraphWarningView) -> bool {
    exists|f: int| 0 <= f < nf && #[trigger] feature_warns(g, p, f, w)
}

/// Whether `x` is an edge that a named feature of one of the first `np`
/// packages adds.
pub open spec fn is_named(g: PackageGraphView, np: int, x: LabeledEdge) -> bool {
    exists|p: int|
        0 <= p < np && #[trigger] package_adds(g, p, g.packages[p].features.len() as int, x)
}

/// Whether `w` is a warning that a named feature of one of the first `np`
/// packages gives.
pub open spec fn is_named_warning(g: PackageGraphView, np: int, w: FeatureGraphWarningView) -> bool {
    exists|p: int|
        0 <= p < np && #[trigger] package_warns(g, p, g.packages[p].features.len() as int, w)
}

/// Whether `x` is an edge that one of the first `ne` links of the package
/// graph adds.
pub open spec fn is_cross(g: PackageGraphView, ne: int, x: LabeledEdge) -> bool {
    exists|e: int| 0 <= e < ne && link_adds(g, #[trigger] g.edges[e], x)
}

/// Whether `w` is a warning that one of the first `ne` links of the
/// package graph gives.
pub open spec fn is_cross_warning(g: PackageGraphView, ne: int, w: FeatureGraphWarningView) -> bool {
    exists|e: int| 0 <= e < ne && link_warns(g, #[trigger] g.edges[e], w)
}

/// What the features that a declaration names add.
pub proof fn lemma_cross_features(
    g: PackageGraphView,
    h: Half,
    target: Option<TargetEnumView>,
    features: Seq<Seq<char>>,
    nf: int,
    acc: Built,
    x: LabeledEdge,
    w: FeatureGraphWarningView,
)
    requires
        nf <= features.len(),
    ensures
        keeps(acc, cross_features(g, h, target, features, nf, acc)),
        cross_features(g, h, target, features, nf, acc).edges.contains(x) <==> acc.edges.contains(x)
            || features_add(g, h, target, features, nf, x),
        cross_features(g, h, target, features, nf, acc).warnings.contains(w)
            <==> acc.warnings.contains(w) || features_warn(g, h, features, nf, w),
    decreases nf,
{
    if nf > 0 {
        lemma_cross_features(g, h, target, features, nf - 1, acc, x, w);
        let before = cross_features(g, h, target, features, nf - 1, acc);
        match feature_index(g.packages[h.to].features, features[nf - 1]) {
            Some(idx) => {
                lemma_edge_added(
                    before,
                    h.from_node,
                    feature_node(g.packages, h.to, idx),
                    cross_label(h, predicate_of(target)),
                    x,
                );
            },
            None => {
                lemma_warning_added(before, dependency_warning(g, h, features[nf - 1]), w);
            },
        }
        if features_add(g, h, target, features, nf, x) {
            let i = choose|i: int| 0 <= i < nf && names_edge(g, h, target, #[trigger] features[i], x);
            if i < nf - 1 {
                assert(features_add(g, h, target, features, nf - 1, x));
            }
        }
        if features_warn(g, h, features, nf, w) {
            let i = choose|i: int| 0 <= i < nf && names_warning(g, h, #[trigger] features[i], w);
            if i < nf - 1 {
                assert(features_warn(g, h, features, nf - 1, w));
            }
        }
        if features_add(g, h, target, features, nf - 1, x) {
            let i = choose|i: int|
                0 <= i < nf - 1 && names_edge(g, h, target, #[trigger] features[i], x);
            assert(names_edge(g, h, target, features[i], x));
        }
        if features_warn(g, h, features, nf - 1, w) {
            let i = choose|i: int| 0 <= i < nf - 1 && names_warning(g, h, #[trigger] features[i], w);
            assert(names_warning(g, h, features[i], w));
        }
        assert(names_edge(g, h, target, features[nf - 1], x) ==> features_add(
            g,
            h,
            target,
            features,
            nf,
            x,
        ));
        assert(names_warning(g, h, features[nf - 1], w) ==> features_warn(g, h, features, nf, w));
    }
}

/// What the declarations of a half add.
pub proof fn lemma_cross_declarations(
    g: PackageGraphView,
    h: Half,
    declarations: Seq<(Option<TargetEnumView>, Seq<Seq<char>>)>,
    nd: int,
    acc: Built,
    x: LabeledEdge,
    w: FeatureGraphWarningView,
)
    requires
        nd <= declarations.len(),
    ensures
        keeps(acc, cross_declarations(g, h, declarations, nd, acc)),
        cross_declarations(g, h, declarations, nd, acc).edges.contains(x) <==> acc.edges.contains(x)
            || declarations_add_to(g, h, declarations, nd, x),
        cross_declarations(g, h, declarations, nd, acc).warnings.contains(w)
            <==> acc.warnings.contains(w) || declarations_warn_to(g, h, declarations, nd, w),
    decreases nd,
{
    if nd > 0 {
        lemma_cross_declarations(g, h, declarations, nd - 1, acc, x, w);
        let before = cross_declarations(g, h, declarations, nd - 1, acc);
        let last = declarations[nd - 1];
        lemma_cross_features(g, h, last.0, last.1, last.1.len() as int, before, x, w);
        if declarations_add_to(g, h, declarations, nd, x) {
            let d = choose|d: int|
                0 <= d < nd && features_add(
                    g,
                    h,
                    (#[trigger] declarations[d]).0,
                    declarations[d].1,
                    declarations[d].1.len() as int,
                    x,
                );
            if d < nd - 1 {
                assert(declarations_add_to(g, h, declarations, nd - 1, x));
            }
        }
        if declarations_warn_to(g, h, declarations, nd, w) {
            let d = choose|d: int|
                0 <= d < nd && features_warn(
                    g,
                    h,
                    (#[trigger] declarations[d]).1,
                    declarations[d].1.len() as int,
                    w,
                );
            if d < nd - 1 {
                assert(declarations_warn_to(g, h, declarations, nd - 1, w));
            }
        }
        if declarations_add_to(g, h, declarations, nd - 1, x) {
            let d = choose|d: int|
                0 <= d < nd - 1 && features_add(
                    g,
                    h,
                    (#[trigger] declarations[d]).0,
                    declarations[d].1,
                    declarations[d].1.len() as int,
                    x,
                );
            assert(declarations_add_to(g, h, declarations, nd, x));
        }
        if declarations_warn_to(g, h, declarations, nd - 1, w) {
            let d = choose|d: int|
                0 <= d < nd - 1 && features_warn(
                    g,
                    h,
                    (#[trigger] declarations[d]).1,
                    declarations[d].1.len() as int,
                    w,
                );
            assert(declarations_warn_to(g, h, declarations, nd, w));
        }
        if features_add(g, h, last.0, last.1, last.1.len() as int, x) {
            assert(declarations_add_to(g, h, declarations, nd, x));
        }
        if features_warn(g, h, last.1, last.1.len() as int, w) {
            assert(declarations_warn_to(g, h, declarations, nd, w));
        }
    }
}

/// What one half of one kind of a link adds.
pub proof fn lemma_cross_half(
    g: PackageGraphView,
    h: Half,
    req: DependencyReqImplView,
    acc: Built,
    x: LabeledEdge,
    w: FeatureGraphWarningView,
)
    ensures
        keeps(acc, cross_half(g, h, req, acc)),
        cross_half(g, h, req, acc).edges.contains(x) <==> acc.edges.contains(x) || half_adds(
            g,
            h,
            req,
            x,
        ),
        cross_half(g, h, req, acc).warnings.contains(w) <==> acc.warnings.contains(w) || half_warns(
            g,
            h,
            req,
            w,
        ),
{
    if req.target_features.len() > 0 {
        let label = cross_label(h, req.build_if);
        lemma_edge_added(acc, h.from_node, base_node(g.packages, h.to), label, x);
        let with_base = acc.edge(h.from_node, base_node(g.packages, h.to), label);
        let with_default = match feature_index(g.packages[h.to].features, "default"@) {
            Some(idx) => if req.default_features_if.is_empty() {
                with_base
            } else {
                with_base.edge(
                    h.from_node,
                    feature_node(g.packages, h.to, idx),
                    cross_label(h, req.default_features_if),
                )
            },
            None => with_base,
        };
        match feature_index(g.packages[h.to].features, "default"@) {
            Some(idx) => {
                if !req.default_features_if.is_empty() {
                    lemma_edge_added(
                        with_base,
                        h.from_node,
                        feature_node(g.packages, h.to, idx),
                        cross_label(h, req.default_features_if),
                        x,
                    );
                }
            },
            None => {},
        }
        lemma_cross_declarations(
            g,
            h,
            req.target_features,
            req.target_features.len() as int,
            with_default,
            x,
            w,
        );
    }
}

/// What one kind of a link adds.
pub proof fn lemma_cross_kind(
    g: PackageGraphView,
    edge: Edge,
    kind: DependencyKind,
    metadata: Option<DependencyMetadataView>,
    acc: Built,
    x: LabeledEdge,
    w: FeatureGraphWarningView,
)
    ensures
        keeps(acc, cross_kind(g, edge, kind, metadata, acc)),
        cross_kind(g, edge, kind, metadata, acc).edges.contains(x) <==> acc.edges.contains(x)
            || kind_adds(g, edge, kind, metadata, x),
        cross_kind(g, edge, kind, metadata, acc).warnings.contains(w) <==> acc.warnings.contains(w)
            || kind_warns(g, edge, kind, metadata, w),
{
    match metadata {
        None => {},
        Some(m) => {
            let mandatory = mandatory_half(g, edge, kind);
            let optional = optional_half(g, edge, kind);
            lemma_cross_half(g, mandatory, m.dependency_req.mandatory, acc, x, w);
            lemma_cross_half(
                g,
                optional,
                m.dependency_req.optional,
                cross_half(g, mandatory, m.dependency_req.mandatory, acc),
                x,
                w,
            );
        },
    }
}

/// What a link of the package graph adds.
pub proof fn lemma_cross_link(
    g: PackageGraphView,
    edge: Edge,
    acc: Built,
    x: LabeledEdge,
    w: FeatureGraphWarningView,
)
    ensures
        keeps(acc, cross_link(g, edge, acc)),
        cross_link(g, edge, acc).edges.contains(x) <==> acc.edges.contains(x) || link_adds(g, edge, x),
        cross_link(g, edge, acc).warnings.contains(w) <==> acc.warnings.contains(w) || link_warns(
            g,
            edge,
            w,
        ),
{
    let link = g.links[edge.2 as int];
    let normal = cross_kind(g, edge, DependencyKind::Normal, link.normal, acc);
    let build = cross_kind(g, edge, DependencyKind::Build, link.build, normal);
    lemma_cross_kind(g, edge, DependencyKind::Normal, link.normal, acc, x, w);
    lemma_cross_kind(g, edge, DependencyKind::Build, link.build, normal, x, w);
    if g.packages[edge.0 as int].workspace_path is Some {
        lemma_cross_kind(g, edge, DependencyKind::Development, link.dev, build, x, w);
    }
}

/// What the links of the package graph add.
pub proof fn lemma_cross_all(
    g: PackageGraphView,
    ne: int,
    acc: Built,
    x: LabeledEdge,
    w: FeatureGraphWarningView,
)
    requires
        ne <= g.edges.len(),
    ensures
        keeps(acc, cross_all(g, ne, acc)),
        cross_all(g, ne, acc).edges.contains(x) <==> acc.edges.contains(x) || is_cross(g, ne, x),
        cross_all(g, ne, acc).warnings.contains(w) <==> acc.warnings.contains(w) || is_cross_warning(
            g,
            ne,
            w,
        ),
    decreases ne,
{
    if ne > 0 {
        lemma_cross_all(g, ne - 1, acc, x, w);
        lemma_cross_link(g, g.edges[ne - 1], cross_all(g, ne - 1, acc), x, w);
        if is_cross(g, ne, x) {
            let e = choose|e: int| 0 <= e < ne && link_adds(g, #[trigger] g.edges[e], x);
            if e < ne - 1 {
                assert(is_cross(g, ne - 1, x));
            }
        }
        if is_cross_warning(g, ne, w) {
            let e = choose|e: int| 0 <= e < ne && link_warns(g, #[trigger] g.edges[e], w);
            if e < ne - 1 {
                assert(is_cross_warning(g, ne - 1, w));
            }
        }
        if is_cross(g, ne - 1, x) {
            let e = choose|e: int| 0 <= e < ne - 1 && link_adds(g, #[trigger] g.edges[e], x);
            assert(is_cross(g, ne, x));
        }
        if is_cross_warning(g, ne - 1, w) {
            let e = choose|e: int| 0 <= e < ne - 1 && link_warns(g, #[trigger] g.edges[e], w);
            assert(is_cross_warning(g, ne, w));
        }
        assert(link_adds(g, g.edges[ne - 1], x) ==> is_cross(g, ne, x));
        assert(link_warns(g, g.edges[ne - 1], w) ==> is_cross_warning(g, ne, w));
    }
}

/// What a token of a named feature adds.
pub proof fn lemma_named_token(
    g: PackageGraphView,
    p: int,
    f: int,
    token: Seq<char>,
    acc: Built,
    x: LabeledEdge,
    w: FeatureGraphWarningView,
)
    ensures
        keeps(acc, named_token(g, p, f, token, acc)),
        named_token(g, p, f, token, acc).edges.contains(x) <==> acc.edges.contains(x) || token_adds(
            g,
            p,
            f,
            token,
            x,
        ),
        named_token(g, p, f, token, acc).warnings.contains(w) <==> acc.warnings.contains(w)
            || token_warns(g, p, f, token, w),
{
    let (dep, feature) = split_feature_dep(token);
    let from = feature_node(g.packages, p, f);
    let warning = named_warning(g, p, f, feature);
    match dep {
        Some(dep) => match named_dep(g, p, dep) {
            Some(edge) => match feature_index(g.packages[edge.1 as int].features, feature) {
                Some(idx) => {
                    lemma_edge_added(
                        acc,
                        from,
                        feature_node(g.packages, edge.1 as int, idx),
                        FeatureEdgeView::FeatureDependency,
                        x,
                    );
                },
                None => {
                    lemma_warning_added(acc, warning, w);
                },
            },
            None => {
                lemma_warning_added(acc, warning, w);
            },
        },
        None => match feature_index(g.packages[p].features, feature) {
            Some(idx) => {
                lemma_edge_added(
                    acc,
                    from,
                    feature_node(g.packages, p, idx),
                    FeatureEdgeView::FeatureDependency,
                    x,
                );
            },
            None => {
                lemma_warning_added(acc, warning, w);
            },
        },
    }
}

/// What the tokens of a named feature add.
pub proof fn lemma_named_tokens(
    g: PackageGraphView,
    p: int,
    f: int,
    tokens: Seq<Seq<char>>,
    nt: int,
    acc: Built,
    x: LabeledEdge,
    w: FeatureGraphWarningView,
)
    requires
        nt <= tokens.len(),
    ensures
        keeps(acc, named_tokens(g, p, f, tokens, nt, acc)),
        named_tokens(g, p, f, tokens, nt, acc).edges.contains(x) <==> acc.edges.contains(x)
            || tokens_add(g, p, f, tokens, nt, x),
        named_tokens(g, p, f, tokens, nt, acc).warnings.contains(w) <==> acc.warnings.contains(w)
            || tokens_warn(g, p, f, tokens, nt, w),
    decreases nt,
{
    if nt > 0 {
        lemma_named_tokens(g, p, f, tokens, nt - 1, acc, x, w);
        lemma_named_token(g, p, f, tokens[nt - 1], named_tokens(g, p, f, tokens, nt - 1, acc), x, w);
        if tokens_add(g, p, f, tokens, nt, x) {
            let t = choose|t: int| 0 <= t < nt && token_adds(g, p, f, #[trigger] tokens[t], x);
            if t < nt - 1 {
                assert(tokens_add(g, p, f, tokens, nt - 1, x));
            }
        }
        if tokens_warn(g, p, f, tokens, nt, w) {
            let t = choose|t: int| 0 <= t < nt && token_warns(g, p, f, #[trigger] tokens[t], w);
            if t < nt - 1 {
                assert(tokens_warn(g, p, f, tokens, nt - 1, w));
            }
        }
        if tokens_add(g, p, f, tokens, nt - 1, x) {
            let t = choose|t: int| 0 <= t < nt - 1 && token_adds(g, p, f, #[trigger] tokens[t], x);
            assert(tokens_add(g, p, f, tokens, nt, x));
        }
        if tokens_warn(g, p, f, tokens, nt - 1, w) {
            let t = choose|t: int| 0 <= t < nt - 1 && token_warns(g, p, f, #[trigger] tokens[t], w);
            assert(tokens_warn(g, p, f, tokens, nt, w));
        }
        assert(token_adds(g, p, f, tokens[nt - 1], x) ==> tokens_add(g, p, f, tokens, nt, x));
        assert(token_warns(g, p, f, tokens[nt - 1], w) ==> tokens_warn(g, p, f, tokens, nt, w));
    }
}

/// What the named features of a package add.
pub proof fn lemma_named_package(
    g: PackageGraphView,
    p: int,
    nf: int,
    acc: Built,
    x: LabeledEdge,
    w: FeatureGraphWarningView,
)
    requires
        nf <= g.packages[p].features.len(),
    ensures
        keeps(acc, named_package(g, p, nf, acc)),
        named_package(g, p, nf, acc).edges.contains(x) <==> acc.edges.contains(x) || package_adds(
            g,
            p,
            nf,
            x,
        ),
        named_package(g, p, nf, acc).warnings.contains(w) <==> acc.warnings.contains(w)
            || package_warns(g, p, nf, w),
    decreases nf,
{
    if nf > 0 {
        lemma_named_package(g, p, nf - 1, acc, x, w);
        let before = named_package(g, p, nf - 1, acc);
        match g.packages[p].features[nf - 1].1 {
            Some(tokens) => {
                lemma_named_tokens(g, p, nf - 1, tokens, tokens.len() as int, before, x, w);
            },
            None => {},
        }
        if package_adds(g, p, nf, x) {
            let f = choose|f: int| 0 <= f < nf && #[trigger] feature_adds(g, p, f, x);
            if f < nf - 1 {
                assert(package_adds(g, p, nf - 1, x));
            }
        }
        if package_warns(g, p, nf, w) {
            let f = choose|f: int| 0 <= f < nf && #[trigger] feature_warns(g, p, f, w);
            if f < nf - 1 {
                assert(package_warns(g, p, nf - 1, w));
            }
        }
        if package_adds(g, p, nf - 1, x) {
            let f = choose|f: int| 0 <= f < nf - 1 && #[trigger] feature_adds(g, p, f, x);
            assert(package_adds(g, p, nf, x));
        }
        if package_warns(g, p, nf - 1, w) {
            let f = choose|f: int| 0 <= f < nf - 1 && #[trigger] feature_warns(g, p, f, w);
            assert(package_warns(g, p, nf, w));
        }
        assert(feature_adds(g, p, nf - 1, x) ==> package_adds(g, p, nf, x));
        assert(feature_warns(g, p, nf - 1, w) ==> package_warns(g, p, nf, w));
    }
}

/// What the named features of the packages add.
pub proof fn lemma_named_all(
    g: PackageGraphView,
    np: int,
    acc: Built,
    x: LabeledEdge,
    w: FeatureGraphWarningView,
)
    requires
        np <= g.packages.len(),
    ensures
        keeps(acc, named_all(g, np, acc)),
        named_all(g, np, acc).edges.contains(x) <==> acc.edges.contains(x) || is_named(g, np, x),
        named_all(g, np, acc).warnings.contains(w) <==> acc.warnings.contains(w) || is_named_warning(
            g,
            np,
            w,
        ),
    decreases np,
{
    if np > 0 {
        lemma_named_all(g, np - 1, acc, x, w);
        let before = named_all(g, np - 1, acc);
        let nf = g.packages[np - 1].features.len() as int;
        lemma_named_package(g, np - 1, nf, before, x, w);
        if is_named(g, np, x) {
            let p = choose|p: int|
                0 <= p < np && #[trigger] package_adds(g, p, g.packages[p].features.len() as int, x);
            if p < np - 1 {
                assert(is_named(g, np - 1, x));
            }
        }
        if is_named_warning(g, np, w) {
            let p = choose|p: int|
                0 <= p < np && #[trigger] package_warns(g, p, g.packages[p].features.len() as int, w);
            if p < np - 1 {
                assert(is_named_warning(g, np - 1, w));
            }
        }
        if is_named(g, np - 1, x) {
            let p = choose|p: int|
                0 <= p < np - 1 && #[trigger] package_adds(
                    g,
                    p,
                    g.packages[p].features.len() as int,
                    x,
                );
            assert(is_named(g, np, x));
        }
        if is_named_warning(g, np - 1, w) {
            let p = choose|p: int|
                0 <= p < np - 1 && #[trigger] package_warns(
                    g,
                    p,
                    g.packages[p].features.len() as int,
                    w,
                );
            assert(is_named_warning(g, np, w));
        }
        assert(package_adds(g, np - 1, nf, x) ==> is_named(g, np, x));
        assert(package_warns(g, np - 1, nf, w) ==> is_named_warning(g, np, w));
    }
}

/// The edges from the features of a package to the package.
pub proof fn lemma_to_base_package(
    packages: Seq<PackageMetadataView>,
    p: int,
    nf: int,
    acc: Built,
    x: LabeledEdge,
)
    ensures
        keeps(acc, to_base_package(packages, p, nf, acc)),
        to_base_package(packages, p, nf, acc).edges.contains(x) <==> acc.edges.contains(x)
            || is_to_base_of(packages, p, nf, x),
        to_base_package(packages, p, nf, acc).warnings == acc.warnings,
    decreases nf,
{
    if nf > 0 {
        lemma_to_base_package(packages, p, nf - 1, acc, x);
        let before = to_base_package(packages, p, nf - 1, acc);
        lemma_edge_added(
            before,
            feature_node(packages, p, nf - 1),
            base_node(packages, p),
            FeatureEdgeView::FeatureToBase,
            x,
        );
        if is_to_base_of(packages, p, nf, x) {
            let f = choose|f: int| 0 <= f < nf && x == #[trigger] to_base_edge(packages, p, f);
            if f < nf - 1 {
                assert(is_to_base_of(packages, p, nf - 1, x));
            }
        }
        if is_to_base_of(packages, p, nf - 1, x) {
            let f = choose|f: int| 0 <= f < nf - 1 && x == #[trigger] to_base_edge(packages, p, f);
            assert(is_to_base_of(packages, p, nf, x));
        }
        assert(x == to_base_edge(packages, p, nf - 1) ==> is_to_base_of(packages, p, nf, x));
    }
}

/// The edges from the features of the packages to their packages.
pub proof fn lemma_to_base(packages: Seq<PackageMetadataView>, np: int, acc: Built, x: LabeledEdge)
    requires
        np <= packages.len(),
    ensures
        keeps(acc, to_base(packages, np, acc)),
        to_base(packages, np, acc).edges.contains(x) <==> acc.edges.contains(x) || is_to_base(
            packages,
            np,
            x,
        ),
        to_base(packages, np, acc).warnings == acc.warnings,
    decreases np,
{
    if np > 0 {
        lemma_to_base(packages, np - 1, acc, x);
        let nf = packages[np - 1].features.len() as int;
        lemma_to_base_package(packages, np - 1, nf, to_base(packages, np - 1, acc), x);
        if is_to_base(packages, np, x) {
            let p = choose|p: int|
                0 <= p < np && #[trigger] is_to_base_of(
                    packages,
                    p,
                    packages[p].features.len() as int,
                    x,
                );
            if p < np - 1 {
                assert(is_to_base(packages, np - 1, x));
            }
        }
        if is_to_base(packages, np - 1, x) {
            let p = choose|p: int|
                0 <= p < np - 1 && #[trigger] is_to_base_of(
                    packages,
                    p,
                    packages[p].features.len() as int,
                    x,
                );
            assert(is_to_base(packages, np, x));
        }
        assert(is_to_base_of(packages, np - 1, nf, x) ==> is_to_base(packages, np, x));
    }
}

/// The edges of the feature graph of a package graph are these and no
/// others: from each feature to its package; from each named feature to
/// the features that its tokens name, as far as they are there; and what
/// the links of the package graph add.
pub proof fn lemma_built_edges(g: PackageGraphView, x: LabeledEdge)
    ensures
        built_of(g).edges.contains(x) <==> is_to_base(g.packages, g.packages.len() as int, x)
            || is_named(g, g.packages.len() as int, x) || is_cross(g, g.edges.len() as int, x),
{
    let w = arbitrary::<FeatureGraphWarningView>();
    let np = g.packages.len() as int;
    let base = to_base(g.packages, np, Built::empty());
    lemma_to_base(g.packages, np, Built::empty(), x);
    lemma_named_all(g, np, base, x, w);
    lemma_cross_all(g, g.edges.len() as int, named_all(g, np, base), x, w);
    assert(!Built::empty().edges.contains(x));
}

/// The warnings of the feature graph of a package graph are these and no
/// others: one for each token of a named feature that names a dependency
/// or a feature that is not there, and one for each feature that a
/// declaration of a dependency names and that the package at its end does
/// not have.
pub proof fn lemma_built_warnings(g: PackageGraphView, w: FeatureGraphWarningView)
    ensures
        built_of(g).warnings.contains(w) <==> is_named_warning(g, g.packages.len() as int, w)
            || is_cross_warning(g, g.edges.len() as int, w),
{
    let x = arbitrary::<LabeledEdge>();
    let np = g.packages.len() as int;
    let base = to_base(g.packages, np, Built::empty());
    lemma_to_base(g.packages, np, Built::empty(), x);
    lemma_named_all(g, np, base, x, w);
    lemma_cross_all(g, g.edges.len() as int, named_all(g, np, base), x, w);
    assert(!Built::empty().warnings.contains(w));
}

/// The feature graph has the edge of every token of a named feature that
/// names a feature that is there.
pub proof fn lemma_built_has_named(g: PackageGraphView, p: int, f: int, x: LabeledEdge)
    requires
        0 <= p < g.packages.len(),
        0 <= f < g.packages[p].features.len(),
        feature_adds(g, p, f, x),
    ensures
        built_of(g).edges.contains(x),
{
    assert(package_adds(g, p, g.packages[p].features.len() as int, x));
    assert(is_named(g, g.packages.len() as int, x));
    lemma_built_edges(g, x);
}

/// The feature graph has every edge that a link of the package graph
/// adds.
pub proof fn lemma_built_has_cross(g: PackageGraphView, e: int, x: LabeledEdge)
    requires
        0 <= e < g.edges.len(),
        link_adds(g, g.edges[e], x),
    ensures
        built_of(g).edges.contains(x),
{
    assert(is_cross(g, g.edges.len() as int, x));
    lemma_built_edges(g, x);
}

/// The warnings of a feature graph are those of the tokens and of the
/// declarations that name what is not there, and no others.
pub proof fn lemma_warnings_of(graph: &FeatureGraph, w: FeatureGraphWarningView)
    requires
        graph.wf(),
    ensures
        graph@.warnings.contains(w) <==> is_named_warning(
            graph.package_graph()@,
            graph.package_graph()@.packages.len() as int,
            w,
        ) || is_cross_warning(graph.package_graph()@, graph.package_graph()@.edges.len() as int, w),
{
    lemma_built_warnings(graph.package_graph()@, w);
}

/// Along an edge of the feature graph that the resolver follows, what is
/// turned on turns on what the edge leads to.
pub proof fn lemma_resolved_takes_edge(
    graph: &FeatureGraph,
    seeds: Seq<usize>,
    opts: CargoOptionsView,
    marks: Seq<bool>,
    x: LabeledEdge,
)
    requires
        graph.wf(),
        resolved(graph@, seeds, opts, marks),
        built_of(graph.package_graph()@).edges.contains(x),
        edge_enabled(x.2, opts) == Ok::<bool, ErrorView>(true),
        flag_set(marks, x.0 as int),
    ensures
        flag_set(marks, x.1 as int),
{
    let built = built_of(graph.package_graph()@).edges;
    let k = choose|k: int| 0 <= k < built.len() && built[k] == x;
    assert(graph@.edges[k] == (built[k].0, built[k].1, k as usize));
    graph.lemma_edges_in_range(k);
    lemma_resolved_follows(graph@, seeds, opts, marks, k);
}

/// Where the resolver turns on a named feature, it turns on each feature
/// that the named feature lists and that is there, in the package itself
/// or in a dependency of it.
pub proof fn lemma_named_feature_brings(
    graph: &FeatureGraph,
    seeds: Seq<usize>,
    opts: CargoOptionsView,
    marks: Seq<bool>,
    p: int,
    f: int,
    x: LabeledEdge,
)
    requires
        graph.wf(),
        resolved(graph@, seeds, opts, marks),
        0 <= p < graph.package_graph()@.packages.len(),
        0 <= f < graph.package_graph()@.packages[p].features.len(),
        feature_adds(graph.package_graph()@, p, f, x),
        flag_set(marks, feature_node(graph.package_graph()@.packages, p, f)),
    ensures
        flag_set(marks, x.1 as int),
{
    let g = graph.package_graph()@;
    lemma_built_has_named(g, p, f, x);
    crate::graph::feature::construct::lemma_feature_node_fits(g.packages, p, f);
    assert(x.0 == feature_node(g.packages, p, f) as usize);
    lemma_resolved_takes_edge(graph, seeds, opts, marks, x);
}

/// Where the resolver turns on the node that a dependency starts from (the
/// package that has it, or the feature that stands for it where it is
/// optional), it turns on what the dependency asks for: the package that
/// it leads to, and the features of it that it names, as far as the
/// resolver follows the edge.
pub proof fn lemma_dependency_brings(
    graph: &FeatureGraph,
    seeds: Seq<usize>,
    opts: CargoOptionsView,
    marks: Seq<bool>,
    e: int,
    x: LabeledEdge,
)
    requires
        graph.wf(),
        resolved(graph@, seeds, opts, marks),
        0 <= e < graph.package_graph()@.edges.len(),
        link_adds(graph.package_graph()@, graph.package_graph()@.edges[e], x),
        edge_enabled(x.2, opts) == Ok::<bool, ErrorView>(true),
        flag_set(marks, x.0 as int),
    ensures
        flag_set(marks, x.1 as int),
{
    lemma_built_has_cross(graph.package_graph()@, e, x);
    lemma_resolved_takes_edge(graph, seeds, opts, marks, x);
}

} // verus!
