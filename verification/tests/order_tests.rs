use guppy::cmdlib::PackagesAndFeatures;
use guppy::commands::{
    by_decreasing_size, packages_missing, CmdSelectOptions, QueryOptions, ResolveCargoOptions,
};
use guppy::graph::workspace::{path_key_of, path_order, TextOrder};
use guppy::graph::{DependencyDirection, FilterOptions, Kind, PackageGraph};
use guppy::metadata::{Metadata, Node, Package, PackageId, Resolve};
use guppy::target_spec::{TargetFeatures, TargetSpec};
use guppy::Error;
use std::str::FromStr;

fn member_id(name: &str, dir: &str) -> PackageId {
    PackageId::new(&format!("{} 0.1.0 (path+file:///ws/{})", name, dir))
}

fn member(name: &str, dir: &str) -> Package {
    Package {
        name: name.to_string(),
        version: "0.1.0".to_string(),
        authors: vec![],
        id: member_id(name, dir),
        description: None,
        license: None,
        license_file: None,
        dependencies: vec![],
        features: vec![],
        manifest_path: format!("/ws/{}/Cargo.toml", dir),
        categories: vec![],
        keywords: vec![],
        readme: None,
        repository: None,
        edition: "2018".to_string(),
        metadata: "null".to_string(),
        links: None,
        publish: None,
    }
}

fn workspace_of(members: &[(&str, &str)]) -> Metadata {
    Metadata {
        packages: members.iter().map(|(name, dir)| member(name, dir)).collect(),
        workspace_members: members.iter().map(|(name, dir)| member_id(name, dir)).collect(),
        resolve: Some(Resolve {
            nodes: members
                .iter()
                .map(|(name, dir)| Node { id: member_id(name, dir), deps: vec![], features: vec![] })
                .collect(),
        }),
        workspace_root: "/ws".to_string(),
    }
}

#[test]
fn paths_are_ordered_by_their_components() {
    assert_eq!(path_order("a/b", "a-b"), TextOrder::Before);
    assert_eq!(path_order("a-b", "a/b"), TextOrder::After);
    assert_eq!(path_order("a", "a/b"), TextOrder::Before);
    assert_eq!(path_order("a", "ab"), TextOrder::Before);
    assert_eq!(path_order("a/c", "ab"), TextOrder::Before);
    assert_eq!(path_order("b", "a/z"), TextOrder::After);
    assert_eq!(path_order("", "a"), TextOrder::Before);
    assert_eq!(path_order("", ""), TextOrder::Same);
    // The root, `.` in front and `..` come before names.
    assert_eq!(path_order("/a", "a"), TextOrder::Before);
    assert_eq!(path_order("./a", "a"), TextOrder::Before);
    assert_eq!(path_order("/a", "./a"), TextOrder::Before);
    assert_eq!(path_order("a/..", "a/b"), TextOrder::Before);
    assert_eq!(path_order("./a", "../a"), TextOrder::Before);
}

#[test]
fn paths_are_the_same_by_their_components() {
    assert_eq!(path_order("a//b", "a/b"), TextOrder::Same);
    assert_eq!(path_order("a/b/", "a/b"), TextOrder::Same);
    assert_eq!(path_order("a/./b", "a/b"), TextOrder::Same);
    assert_eq!(path_order("a/b/.", "a/b"), TextOrder::Same);
    assert_eq!(path_order("//a", "/a"), TextOrder::Same);
    assert_eq!(path_order("/./a", "/a"), TextOrder::Same);
    assert_eq!(path_order(".", ""), TextOrder::After);
    assert_eq!(path_order("./a", "a"), TextOrder::Before);
    assert_eq!(path_order("a/../b", "b"), TextOrder::Before);
}

#[test]
fn the_key_of_a_path() {
    assert_eq!(path_key_of(""), Vec::<i64>::new());
    assert_eq!(path_key_of("a/b"), vec![-1, 4, 97, -1, 4, 98]);
    assert_eq!(path_key_of("a//b/"), vec![-1, 4, 97, -1, 4, 98]);
    assert_eq!(path_key_of("a-b"), vec![-1, 4, 97, 45, 98]);
    assert_eq!(path_key_of("/a"), vec![-1, 1, -1, 4, 97]);
    assert_eq!(path_key_of("./a/./.."), vec![-1, 2, -1, 4, 97, -1, 3]);
    assert_eq!(path_key_of("..."), vec![-1, 4, 46, 46, 46]);
}

#[test]
fn members_come_in_the_order_of_their_paths() {
    let md = workspace_of(&[("dash", "a-b"), ("deep", "a/b"), ("top", "a"), ("other", "ab")]);
    let graph = PackageGraph::new(md, None).unwrap();
    graph.verify().unwrap();
    let paths: Vec<&str> =
        graph.workspace().members().iter().map(|(path, _)| path.as_str()).collect();
    assert_eq!(paths, vec!["a", "a/b", "a-b", "ab"]);
    let ids: Vec<PackageId> = graph.workspace().member_ids().into_iter().cloned().collect();
    assert_eq!(
        ids,
        vec![
            member_id("top", "a"),
            member_id("deep", "a/b"),
            member_id("dash", "a-b"),
            member_id("other", "ab"),
        ]
    );
    assert_eq!(graph.workspace().member_by_path("a/b"), Some(&member_id("deep", "a/b")));
    assert_eq!(graph.workspace().member_by_path("a//b/"), Some(&member_id("deep", "a/b")));
    assert_eq!(graph.workspace().member_by_path("a/./b"), Some(&member_id("deep", "a/b")));
    assert_eq!(graph.workspace().member_by_path("a-b"), Some(&member_id("dash", "a-b")));
    assert_eq!(graph.workspace().member_by_path("b"), None);
}

#[test]
fn two_members_at_one_path_are_refused() {
    let md = workspace_of(&[("one", "a/b"), ("two", "a//b")]);
    assert!(matches!(PackageGraph::new(md, None), Err(Error::PackageGraphConstructError(_))));
}

#[test]
fn target_features_are_a_set() {
    assert_eq!(TargetFeatures::features(&["a", "b"]), TargetFeatures::features(&["b", "a", "a"]));
    assert_eq!(
        TargetFeatures::features(&["sse2", "avx", "sse2"]),
        TargetFeatures::Features(vec!["avx".to_string(), "sse2".to_string()])
    );
    assert_ne!(TargetFeatures::features(&["a"]), TargetFeatures::features(&["a", "b"]));
    assert_ne!(TargetFeatures::features(&[]), TargetFeatures::All);
    assert_eq!(TargetFeatures::features(&[]), TargetFeatures::none());
    let features = TargetFeatures::features(&["b", "a", "a"]);
    assert!(features.matches("a"));
    assert!(features.matches("b"));
    assert!(!features.matches("c"));
    assert_eq!(features.duplicate(), features);
}

#[test]
fn entries_by_decreasing_size() {
    let list = vec![(0, vec![]), (1, vec![7, 8]), (2, vec![9]), (3, vec![5, 6]), (4, vec![]), (5, vec![1, 2, 3])];
    assert_eq!(
        by_decreasing_size(list),
        vec![(5, vec![1, 2, 3]), (1, vec![7, 8]), (3, vec![5, 6]), (2, vec![9]), (0, vec![]), (4, vec![])]
    );
    assert_eq!(by_decreasing_size(vec![]), vec![]);
}

#[test]
fn packages_that_another_graph_lacks() {
    let old = PackageGraph::new(workspace_of(&[("a", "a"), ("b", "b"), ("c", "c")]), None).unwrap();
    let new = PackageGraph::new(workspace_of(&[("b", "b"), ("d", "d")]), None).unwrap();
    assert_eq!(packages_missing(&old, &new), vec![0, 2]);
    assert_eq!(packages_missing(&new, &old), vec![1]);
    assert_eq!(packages_missing(&old, &old), Vec::<usize>::new());
}

#[test]
fn a_name_stands_for_the_first_member_that_has_it() {
    let md = workspace_of(&[("twin", "z"), ("twin", "a"), ("single", "m")]);
    let graph = PackageGraph::new(md, None).unwrap();
    let query = graph.query_workspace_names(&vec!["twin".to_string()]).unwrap();
    assert_eq!(query.starts_from(), &vec![0]);
    let features = graph.feature_graph().unwrap();
    let pf = PackagesAndFeatures {
        packages: vec!["twin".to_string()],
        features: vec![],
        all_features: false,
        no_default_features: false,
    };
    let first = pf.make_feature_query(&features).unwrap();
    let second = pf.make_feature_query(&features).unwrap();
    assert_eq!(first.starts_from(), second.starts_from());
    assert_eq!(first.starts_from(), &vec![features.base_ix(0)]);
    let options = ResolveCargoOptions {
        packages: vec!["twin".to_string()],
        include_dev: false,
        target_platform: None,
        host_platform: None,
    };
    let set = options.resolve(&features, None).unwrap();
    assert_eq!(set.target_features().contains_ix(features.base_ix(0)), true);
}

#[test]
fn select_starts_from_its_roots() {
    let md = workspace_of(&[("a", "a"), ("b", "b")]);
    let graph = PackageGraph::new(md, None).unwrap();
    let options = CmdSelectOptions {
        filter_opts: FilterOptions {
            include_dev: true,
            include_build: true,
            kind: Kind::All,
            omit_edges_into: vec![],
        },
        output_direction: DependencyDirection::Forward,
        output_dot: None,
        query_opts: QueryOptions { direction: DependencyDirection::Forward, roots: vec!["b".to_string()] },
    };
    let (set, shown) = options.select(&graph).unwrap();
    assert_eq!(shown, vec![1]);
    assert_eq!(set.len(), 1);
    assert!(set.contains_ix(1));
    let missing = CmdSelectOptions {
        query_opts: QueryOptions { direction: DependencyDirection::Forward, roots: vec!["b".to_string(), "nothing".to_string()] },
        ..options
    };
    assert!(matches!(missing.select(&graph), Err(Error::UnknownPackageId(_))));
}

#[test]
fn parsing_from_text_is_parsing() {
    assert_eq!(TargetSpec::from_str("cfg(unix)").ok(), TargetSpec::new("cfg(unix)").ok());
    assert!(TargetSpec::from_str("cfg(").is_err());
}
