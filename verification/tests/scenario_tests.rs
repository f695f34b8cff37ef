use guppy::cmdlib::PackagesAndFeatures;
use guppy::commands::{duplicates, CmdSelectOptions, QueryOptions, ResolveCargoOptions};
use guppy::compare::{FeatureMap, GuppyCargoCommon};
use guppy::graph::cargo::CargoOptions;
use guppy::graph::feature::{
    all_filter, default_filter, feature_filter, none_filter, FeatureEdge, FeatureId, FeatureNode,
};
use guppy::graph::{
    DependencyDirection, DependencyStatus, FilterOptions, Kind, PackageGraph, TargetPredicate,
};
use guppy::metadata::{
    Dependency, DependencyKind, Metadata, Node, NodeDep, Package, PackageId, Resolve,
};
use guppy::semver_support::cargo_version_matches;
use guppy::{Error, FeatureBuildStage, FeatureGraphWarning, Platform, TargetFeatures};

fn id(name: &str, version: &str) -> PackageId {
    PackageId::new(&format!(
        "{} {} (registry+https://github.com/rust-lang/crates.io-index)",
        name, version
    ))
}

fn path_id(name: &str, version: &str, path: &str) -> PackageId {
    PackageId::new(&format!("{} {} (path+file://{})", name, version, path))
}

fn package(id: PackageId, name: &str, version: &str, manifest_path: &str) -> Package {
    Package {
        name: name.to_string(),
        version: version.to_string(),
        authors: vec![],
        id,
        description: None,
        license: None,
        license_file: None,
        dependencies: vec![],
        features: vec![],
        manifest_path: manifest_path.to_string(),
        categories: vec![],
        keywords: vec![],
        readme: None,
        repository: None,
        edition: "2018".to_string(),
        metadata: "null".to_string(),
        links: None,
        publish: None,
    }
}

fn registry_package(name: &str, version: &str) -> Package {
    package(
        id(name, version),
        name,
        version,
        &format!("/registry/{}-{}/Cargo.toml", name, version),
    )
}

fn dep(name: &str, req: &str, kind: DependencyKind) -> Dependency {
    Dependency {
        name: name.to_string(),
        rename: None,
        req: req.to_string(),
        kind,
        optional: false,
        uses_default_features: true,
        features: vec![],
        target: None,
    }
}

fn node(id: &PackageId, deps: Vec<(&str, &PackageId)>) -> Node {
    Node {
        id: id.clone(),
        deps: deps
            .into_iter()
            .map(|(name, pkg)| NodeDep {
                name: name.to_string(),
                pkg: pkg.clone(),
                dep_kinds: vec![],
            })
            .collect(),
        features: vec![],
    }
}

fn metadata(packages: Vec<Package>, members: Vec<PackageId>, nodes: Vec<Node>, root: &str) -> Metadata {
    Metadata {
        packages,
        workspace_members: members,
        resolve: Some(Resolve { nodes }),
        workspace_root: root.to_string(),
    }
}

fn strings(v: &[&str]) -> Vec<String> {
    v.iter().map(|s| s.to_string()).collect()
}

// A workspace of two members with three packages named walkdir: one of
// the workspace, one of crates.io under another name, and one at a path
// under a third name.
fn metadata2() -> (Metadata, Vec<PackageId>) {
    let testcrate = path_id(
        "testworkspace-crate",
        "0.1.0",
        "/Users/fakeuser/local/testworkspace/testcrate",
    );
    let walkdir_ws = path_id(
        "walkdir",
        "2.2.9",
        "/Users/fakeuser/local/testworkspace/walkdir",
    );
    let walkdir_io = id("walkdir", "2.2.9");
    let walkdir_path = path_id("walkdir", "0.1.0", "/Users/fakeuser/local/walkdir");
    let mut root = package(
        testcrate.clone(),
        "testworkspace-crate",
        "0.1.0",
        "/Users/fakeuser/local/testworkspace/testcrate/Cargo.toml",
    );
    root.dependencies = vec![
        dep("walkdir", "^2.2.9", DependencyKind::Normal),
        Dependency {
            rename: Some("walkdir-crates-io".to_string()),
            ..dep("walkdir", "^2.2.9", DependencyKind::Normal)
        },
        Dependency {
            rename: Some("walkdir-nuevo".to_string()),
            ..dep("walkdir", "^0.1.0", DependencyKind::Normal)
        },
    ];
    let md = metadata(
        vec![
            root,
            package(
                walkdir_ws.clone(),
                "walkdir",
                "2.2.9",
                "/Users/fakeuser/local/testworkspace/walkdir/Cargo.toml",
            ),
            registry_package("walkdir", "2.2.9"),
            package(
                walkdir_path.clone(),
                "walkdir",
                "0.1.0",
                "/Users/fakeuser/local/walkdir/Cargo.toml",
            ),
        ],
        vec![testcrate.clone(), walkdir_ws.clone()],
        vec![
            node(
                &testcrate,
                vec![
                    ("walkdir", &walkdir_ws),
                    ("walkdir_crates_io", &walkdir_io),
                    ("walkdir_nuevo", &walkdir_path),
                ],
            ),
            node(&walkdir_ws, vec![]),
            node(&walkdir_io, vec![]),
            node(&walkdir_path, vec![]),
        ],
        "/Users/fakeuser/local/testworkspace",
    );
    (md, vec![testcrate, walkdir_ws, walkdir_io, walkdir_path])
}

#[test]
fn workspace_duplicates() {
    let (md, ids) = metadata2();
    let graph = PackageGraph::new(md, None).expect("the graph is built");
    graph.verify().unwrap();

    // The workspace lists its members by path.
    let members = graph.workspace().members();
    assert_eq!(
        members,
        &vec![
            ("testcrate".to_string(), ids[0].clone()),
            ("walkdir".to_string(), ids[1].clone()),
        ]
    );
    assert_eq!(graph.workspace().root(), "/Users/fakeuser/local/testworkspace");
    assert_eq!(graph.workspace().member_by_path("walkdir"), Some(&ids[1]));
    assert_eq!(graph.workspace().member_by_path("nothing"), None);
    assert_eq!(graph.workspace().member_ids(), vec![&ids[0], &ids[1]]);
    assert_eq!(
        graph.metadata(&ids[1]).unwrap().workspace_path(),
        Some("walkdir")
    );

    // The three links go by the names that the manifest writes.
    let mut names: Vec<(String, String)> = graph
        .dep_links(&ids[0])
        .unwrap()
        .iter()
        .map(|link| {
            (
                link.edge.dep_name().to_string(),
                link.edge.resolved_name().to_string(),
            )
        })
        .collect();
    names.sort();
    assert_eq!(
        names,
        vec![
            ("walkdir".to_string(), "walkdir".to_string()),
            (
                "walkdir-crates-io".to_string(),
                "walkdir_crates_io".to_string()
            ),
            ("walkdir-nuevo".to_string(), "walkdir_nuevo".to_string()),
        ]
    );

    // Cargo builds all three.
    let features = graph.feature_graph().unwrap();
    let query = features.query_workspace(&default_filter());
    let cargo_set = query
        .resolve_cargo(&CargoOptions::new().with_dev_deps(false))
        .unwrap();
    for package_id in &ids {
        assert_eq!(
            cargo_set
                .target_features()
                .contains(&FeatureId::base(package_id)),
            Ok(true)
        );
        assert_eq!(
            cargo_set
                .host_features()
                .contains(&FeatureId::base(package_id)),
            Ok(true)
        );
    }

    // The duplicates.
    let set = graph.query_workspace().resolve();
    let dups = duplicates(&set);
    assert_eq!(dups.len(), 1);
    let mut found: Vec<(String, String)> = dups[0]
        .iter()
        .map(|ix| {
            let package = &graph.packages()[*ix];
            (package.name().to_string(), package.version().to_string())
        })
        .collect();
    found.sort();
    assert_eq!(
        found,
        vec![
            ("walkdir".to_string(), "0.1.0".to_string()),
            ("walkdir".to_string(), "2.2.9".to_string()),
            ("walkdir".to_string(), "2.2.9".to_string()),
        ]
    );
}

// The manifest of the test crate:
//
//   [dependencies]
//   lazy_static = "1"
//   bytes = { version = "0.5", default-features = false, features = ["serde"] }
//   dep-a = { path = "../dep-a", optional = true }
//
//   [target.'cfg(not(windows))'.dependencies]
//   lazy_static = "0.2"
//   dep-a = { path = "../dep-a", features = ["foo"] }
//
//   [target.'cfg(windows)'.dev-dependencies]
//   lazy_static = "0.1"
//
//   [target.'cfg(target_arch = "x86")'.dependencies]
//   bytes = { version = "=0.5.3", optional = false }
//   dep-a = { path = "../dep-a", features = ["bar"] }
//
//   [target.x86_64-unknown-linux-gnu.build-dependencies]
//   bytes = { version = "0.5.2", optional = true, default-features = false, features = ["std"] }
fn metadata_targets() -> (Metadata, PackageId) {
    let testcrate = path_id("testcrate-targets", "0.1.0", "/fakepath/testcrate-targets");
    let dep_a = path_id("dep-a", "0.1.0", "/fakepath/dep-a");
    let bytes = id("bytes", "0.5.3");
    let lazy_1 = id("lazy_static", "1.4.0");
    let lazy_02 = id("lazy_static", "0.2.11");
    let lazy_01 = id("lazy_static", "0.1.16");
    let mut root = package(
        testcrate.clone(),
        "testcrate-targets",
        "0.1.0",
        "/fakepath/testcrate-targets/Cargo.toml",
    );
    let with_target = |d: Dependency, target: &str| Dependency {
        target: Some(target.to_string()),
        ..d
    };
    root.dependencies = vec![
        dep("lazy_static", "^1", DependencyKind::Normal),
        Dependency {
            uses_default_features: false,
            features: strings(&["serde"]),
            ..dep("bytes", "^0.5", DependencyKind::Normal)
        },
        Dependency {
            optional: true,
            ..dep("dep-a", "*", DependencyKind::Normal)
        },
        with_target(
            dep("lazy_static", "^0.2", DependencyKind::Normal),
            "cfg(not(windows))",
        ),
        with_target(
            Dependency {
                features: strings(&["foo"]),
                ..dep("dep-a", "*", DependencyKind::Normal)
            },
            "cfg(not(windows))",
        ),
        with_target(
            dep("lazy_static", "^0.1", DependencyKind::Development),
            "cfg(windows)",
        ),
        with_target(
            dep("bytes", "=0.5.3", DependencyKind::Normal),
            "cfg(target_arch = \"x86\")",
        ),
        with_target(
            Dependency {
                features: strings(&["bar"]),
                ..dep("dep-a", "*", DependencyKind::Normal)
            },
            "cfg(target_arch = \"x86\")",
        ),
        with_target(
            Dependency {
                optional: true,
                uses_default_features: false,
                features: strings(&["std"]),
                ..dep("bytes", "^0.5.2", DependencyKind::Build)
            },
            "x86_64-unknown-linux-gnu",
        ),
    ];
    let mut a = package(dep_a.clone(), "dep-a", "0.1.0", "/fakepath/dep-a/Cargo.toml");
    a.features = vec![
        ("bar".to_string(), vec![]),
        ("foo".to_string(), vec![]),
    ];
    let mut b = registry_package("bytes", "0.5.3");
    b.features = vec![
        ("default".to_string(), strings(&["std"])),
        ("std".to_string(), vec![]),
    ];
    b.dependencies = vec![Dependency {
        optional: true,
        ..dep("serde", "^1", DependencyKind::Normal)
    }];
    let md = metadata(
        vec![
            root,
            a,
            b,
            registry_package("lazy_static", "1.4.0"),
            registry_package("lazy_static", "0.2.11"),
            registry_package("lazy_static", "0.1.16"),
        ],
        vec![testcrate.clone()],
        vec![
            node(
                &testcrate,
                vec![
                    ("bytes", &bytes),
                    ("dep_a", &dep_a),
                    ("lazy_static", &lazy_1),
                    ("lazy_static", &lazy_02),
                    ("lazy_static", &lazy_01),
                ],
            ),
            node(&dep_a, vec![]),
            node(&bytes, vec![]),
            node(&lazy_1, vec![]),
            node(&lazy_02, vec![]),
            node(&lazy_01, vec![]),
        ],
        "/fakepath/testcrate-targets",
    );
    (md, testcrate)
}

#[test]
fn metadata_targets1() {
    let (md, testcrate) = metadata_targets();
    let current = Platform::new("x86_64-unknown-linux-gnu", TargetFeatures::All);
    let graph = PackageGraph::new(md, current).expect("the graph is built");
    graph.verify().unwrap();

    let mut bytes_links: Vec<_> = graph
        .dep_links(&testcrate)
        .expect("valid package ID")
        .into_iter()
        .filter(|link| link.to.name() == "bytes")
        .collect();
    assert_eq!(bytes_links.len(), 1, "only one 'bytes' link should exist");
    let bytes_link = bytes_links.pop().unwrap();

    let metadata = bytes_link
        .edge
        .normal()
        .expect("bytes is a normal dependency");

    let x86_64_linux = "x86_64-unknown-linux-gnu";
    let i686_windows = "i686-pc-windows-msvc";

    // As a normal dependency, bytes is mandatory everywhere.
    assert_eq!(
        metadata.build_status_on(x86_64_linux).unwrap(),
        DependencyStatus::Mandatory,
        "bytes is mandatory on x86_64"
    );
    assert_eq!(
        metadata.build_status_on(i686_windows).unwrap(),
        DependencyStatus::Mandatory,
        "bytes is mandatory on x86",
    );

    // As a normal dependency, bytes builds default features on x86 but nowhere else.
    assert_eq!(
        metadata.default_features_on(x86_64_linux).unwrap(),
        DependencyStatus::Never,
        "bytes never builds default features on x86_64",
    );
    assert_eq!(
        metadata.default_features_on(i686_windows).unwrap(),
        DependencyStatus::Mandatory,
        "bytes always builds default features on x86",
    );

    // This should be the union of all the features in the [dependencies] sections.
    assert_eq!(metadata.features(), &["serde".to_string()]);

    // What is kept for the current platform.
    assert_eq!(metadata.build_status(), DependencyStatus::Mandatory);
    assert!(!metadata.optional());
    assert_eq!(metadata.default_features(), DependencyStatus::Never);
    assert!(!metadata.uses_default_features());
    assert_eq!(metadata.target(), None);
    assert_eq!(metadata.version_req(), "^0.5");

    // As a build dependency, bytes is optional on one platform alone.
    let build = bytes_link.edge.build().expect("bytes is a build dependency");
    assert_eq!(
        build.build_status_on(x86_64_linux).unwrap(),
        DependencyStatus::Optional
    );
    assert_eq!(
        build.build_status_on(i686_windows).unwrap(),
        DependencyStatus::Never
    );
    assert_eq!(build.target(), Some("x86_64-unknown-linux-gnu"));
    assert_eq!(build.features(), &["std".to_string()]);
    assert!(bytes_link.edge.dev().is_none());

    // A triple that the database does not hold.
    assert!(matches!(
        build.build_status_on("not-a-triple"),
        Err(Error::TargetEvalError { .. })
    ));
}

#[test]
fn platform_predicate() {
    let (md, testcrate) = metadata_targets();
    let graph = PackageGraph::new(md, None).unwrap();
    let links = graph.dep_links(&testcrate).unwrap();
    let linux = "x86_64-unknown-linux-gnu";
    let windows = "x86_64-pc-windows-msvc";

    // lazy_static = "1", and under cfg(not(windows)) lazy_static = "0.2":
    // each declaration goes to the package that its requirement selects.
    let lazy_1 = links
        .iter()
        .find(|link| link.to.name() == "lazy_static" && link.to.version() == "1.4.0")
        .unwrap();
    let normal = lazy_1.edge.normal().unwrap();
    assert_eq!(normal.build_status_on(linux).unwrap(), DependencyStatus::Mandatory);
    assert_eq!(normal.build_status_on(windows).unwrap(), DependencyStatus::Mandatory);

    let lazy_02 = links
        .iter()
        .find(|link| link.to.version() == "0.2.11")
        .unwrap();
    let normal = lazy_02.edge.normal().unwrap();
    assert_eq!(normal.build_status_on(linux).unwrap(), DependencyStatus::Mandatory);
    assert_eq!(normal.build_status_on(windows).unwrap(), DependencyStatus::Never);
    assert_eq!(normal.target(), Some("cfg(not(windows))"));

    // A dependency declared only under cfg(windows).
    let lazy_01 = links
        .iter()
        .find(|link| link.to.version() == "0.1.16")
        .unwrap();
    assert!(lazy_01.edge.dev_only());
    let dev = lazy_01.edge.dev().unwrap();
    assert_eq!(dev.build_status_on(linux).unwrap(), DependencyStatus::Never);
    assert_eq!(dev.build_status_on(windows).unwrap(), DependencyStatus::Mandatory);
    // Without a current platform, what holds somewhere is taken to hold.
    assert_eq!(dev.build_status(), DependencyStatus::Mandatory);

    // dep-a is optional everywhere, and mandatory where a target asks for it.
    let dep_a = links.iter().find(|link| link.to.name() == "dep-a").unwrap();
    let normal = dep_a.edge.normal().unwrap();
    assert_eq!(normal.build_status_on(linux).unwrap(), DependencyStatus::Mandatory);
    assert_eq!(normal.build_status_on(windows).unwrap(), DependencyStatus::Optional);
    assert_eq!(
        normal.build_status_on("i686-pc-windows-msvc").unwrap(),
        DependencyStatus::Mandatory
    );
    assert_eq!(normal.features(), &["foo".to_string(), "bar".to_string()]);
    assert_eq!(dep_a.edge.dep_name(), "dep-a");
    assert_eq!(dep_a.edge.resolved_name(), "dep_a");
}

// Package A with B = { version = "1", optional = true, features = ["f1"] }
// and the feature useB = ["B"].
fn metadata_optional() -> (Metadata, PackageId, PackageId) {
    let a = path_id("A", "0.1.0", "/ws/a");
    let b = id("B", "1.0.0");
    let mut pa = package(a.clone(), "A", "0.1.0", "/ws/a/Cargo.toml");
    pa.dependencies = vec![Dependency {
        optional: true,
        features: strings(&["f1"]),
        ..dep("B", "^1", DependencyKind::Normal)
    }];
    pa.features = vec![("useB".to_string(), strings(&["B"]))];
    let mut pb = registry_package("B", "1.0.0");
    pb.features = vec![
        ("f1".to_string(), vec![]),
        ("f2".to_string(), vec![]),
    ];
    let md = metadata(
        vec![pa, pb],
        vec![a.clone()],
        vec![node(&a, vec![("B", &b)]), node(&b, vec![])],
        "/ws",
    );
    (md, a, b)
}

#[test]
fn optional_feature_activation() {
    let (md, a, b) = metadata_optional();
    let graph = PackageGraph::new(md, None).unwrap();
    let package_a = graph.metadata(&a).unwrap();
    assert_eq!(package_a.named_features(), vec!["useB"]);
    assert_eq!(package_a.feature_count(), 2);
    assert_eq!(package_a.get_feature_idx("B"), Some(1));
    assert_eq!(package_a.get_feature_idx("nothing"), None);
    assert!(!package_a.has_default_feature());

    let features = graph.feature_graph().unwrap();
    assert!(features.warnings().is_empty());
    // base(A), (A, useB), (A, B), base(B), (B, f1), (B, f2)
    assert_eq!(features.feature_count(), 6);
    assert_eq!(
        features.node(2),
        FeatureNode { package_ix: 0, feature_idx: Some(1) }
    );
    assert_eq!(
        features.node(3),
        FeatureNode { package_ix: 1, feature_idx: None }
    );
    // Four edges to the bases, useB -> B, and two edges of the optional
    // dependency: to the base of B and to its feature f1.
    assert_eq!(features.link_count(), 7);
    assert_eq!(features.label(0), &FeatureEdge::FeatureToBase);
    assert_eq!(features.label(4), &FeatureEdge::FeatureDependency);
    assert_eq!(
        features.label(5),
        &FeatureEdge::CrossPackage {
            kind: DependencyKind::Normal,
            predicate: TargetPredicate::Always,
            optional: true,
        }
    );

    // Resolve from the seed (A, useB).
    let seed = features.node_ix(&FeatureId::new(&a, "useB")).unwrap();
    let query = guppy::graph::feature::FeatureQuery::new(&features, vec![seed]);
    let set = query.resolve_cargo(&CargoOptions::new()).unwrap();
    let target = set.target_features();
    assert_eq!(target.contains(&FeatureId::base(&b)), Ok(true));
    assert_eq!(target.contains(&FeatureId::new(&b, "f1")), Ok(true));
    assert_eq!(target.contains(&FeatureId::base(&a)), Ok(true));
    assert_eq!(target.contains(&FeatureId::new(&a, "useB")), Ok(true));
    assert_eq!(target.contains(&FeatureId::new(&a, "B")), Ok(true));
    assert_eq!(target.contains(&FeatureId::new(&b, "f2")), Ok(false));
    assert_eq!(target.len(), 5);
    assert_eq!(
        target.contains(&FeatureId::new(&b, "nothing")),
        Err(Error::UnknownFeatureId(b.clone(), Some("nothing".to_string())))
    );
    assert_eq!(
        target.contains(&FeatureId::base(&id("nothing", "0.0.0"))),
        Err(Error::UnknownFeatureId(id("nothing", "0.0.0"), None))
    );

    // Without the feature, the optional dependency is not built.
    let none = features
        .query_workspace(&none_filter())
        .resolve_cargo(&CargoOptions::new())
        .unwrap();
    assert_eq!(none.target_features().contains(&FeatureId::base(&a)), Ok(true));
    assert_eq!(none.target_features().contains(&FeatureId::base(&b)), Ok(false));
    assert_eq!(none.target_features().len(), 1);

    // Resolving twice gives the same, and more seeds turn off nothing.
    let again = features
        .query_workspace(&none_filter())
        .resolve_cargo(&CargoOptions::new())
        .unwrap();
    let all = features
        .query_workspace(&all_filter())
        .resolve_cargo(&CargoOptions::new())
        .unwrap();
    for ix in 0..features.feature_count() {
        assert_eq!(
            none.target_features().contains_ix(ix),
            again.target_features().contains_ix(ix)
        );
        assert!(!none.target_features().contains_ix(ix) || all.target_features().contains_ix(ix));
    }
    assert_eq!(all.target_features().len(), 5);

    // By package.
    let lists = all
        .target_features()
        .packages_with_features(DependencyDirection::Forward);
    assert_eq!(lists.len(), 2);
    assert_eq!(lists[0].package().name(), "A");
    assert!(lists[0].has_base());
    assert_eq!(lists[0].features(), &vec!["useB", "B"]);
    assert_eq!(lists[1].package().name(), "B");
    assert_eq!(lists[1].features(), &vec!["f1"]);
    let reversed = all
        .target_features()
        .packages_with_features(DependencyDirection::Reverse);
    assert_eq!(reversed[0].package().name(), "B");

    // As a map.
    let map = FeatureMap::from_guppy(&all, true);
    assert_eq!(map.target_map, map.host_map);
    assert_eq!(map.target_map.len(), 2);
    let (key, set) = map.target_map.entry(0);
    assert_eq!(key, a.repr.as_str());
    assert_eq!(set.items(), &strings(&["B", "useB"]));
    assert_eq!(
        map.target_map.get(b.repr.as_str()).unwrap().items(),
        &strings(&["f1"])
    );
    assert!(map.target_map.get("nothing").is_none());
}

#[test]
fn missing_feature_warning() {
    let a = path_id("A", "0.1.0", "/ws/a");
    let c = id("C", "1.0.0");
    let mut pa = package(a.clone(), "A", "0.1.0", "/ws/a/Cargo.toml");
    pa.dependencies = vec![dep("C", "^1", DependencyKind::Normal)];
    pa.features = vec![("bad".to_string(), strings(&["C/ghost"]))];
    let md = metadata(
        vec![pa, registry_package("C", "1.0.0")],
        vec![a.clone()],
        vec![node(&a, vec![("C", &c)]), node(&c, vec![])],
        "/ws",
    );
    let graph = PackageGraph::new(md, None).expect("the graph builds");
    let features = graph.feature_graph().expect("the feature graph builds");
    assert_eq!(
        features.warnings(),
        &vec![FeatureGraphWarning::MissingFeature {
            stage: FeatureBuildStage::AddNamedFeatureEdges {
                package_id: a.clone(),
                from_feature: "bad".to_string(),
            },
            package_id: a.clone(),
            feature_name: "ghost".to_string(),
        }]
    );
    assert_eq!(
        features.warnings()[0].message(),
        format!(
            "for package '{}', while adding named feature edges from 'bad': for package '{}', missing feature 'ghost'",
            a.repr, a.repr
        )
    );
    // The edge is left out: base(A), (A, bad), base(C); bad -> base(A), and A -> C.
    assert_eq!(features.feature_count(), 3);
    assert_eq!(features.link_count(), 2);
}

#[test]
fn missing_dependency_feature_warning() {
    let a = path_id("A", "0.1.0", "/ws/a");
    let c = id("C", "1.0.0");
    let mut pa = package(a.clone(), "A", "0.1.0", "/ws/a/Cargo.toml");
    pa.dependencies = vec![Dependency {
        features: strings(&["ghost"]),
        ..dep("C", "^1", DependencyKind::Normal)
    }];
    let mut pc = registry_package("C", "1.0.0");
    pc.features = vec![("default".to_string(), vec![])];
    let md = metadata(
        vec![pa, pc],
        vec![a.clone()],
        vec![node(&a, vec![("C", &c)]), node(&c, vec![])],
        "/ws",
    );
    let graph = PackageGraph::new(md, None).unwrap();
    assert!(graph.metadata(&c).unwrap().has_default_feature());
    let features = graph.feature_graph().unwrap();
    assert_eq!(
        features.warnings(),
        &vec![FeatureGraphWarning::MissingFeature {
            stage: FeatureBuildStage::AddDependencyEdges {
                package_id: a.clone(),
                dep_name: "C".to_string(),
            },
            package_id: c.clone(),
            feature_name: "ghost".to_string(),
        }]
    );
    // default -> base(C); A -> base(C); A -> (C, default).
    assert_eq!(features.link_count(), 3);
    let set = features
        .query_workspace(&none_filter())
        .resolve_cargo(&CargoOptions::new())
        .unwrap();
    assert_eq!(
        set.target_features().contains(&FeatureId::new(&c, "default")),
        Ok(true)
    );
}

// X and Y, each a dev dependency of the other.
fn metadata_cycle(kind: DependencyKind) -> (Metadata, PackageId, PackageId) {
    let x = path_id("X", "0.1.0", "/ws/x");
    let y = path_id("Y", "0.1.0", "/ws/y");
    let mut px = package(x.clone(), "X", "0.1.0", "/ws/x/Cargo.toml");
    px.dependencies = vec![dep("Y", "^0.1", kind)];
    let mut py = package(y.clone(), "Y", "0.1.0", "/ws/y/Cargo.toml");
    py.dependencies = vec![dep("X", "^0.1", kind)];
    let md = metadata(
        vec![px, py],
        vec![x.clone(), y.clone()],
        vec![node(&x, vec![("Y", &y)]), node(&y, vec![("X", &x)])],
        "/ws",
    );
    (md, x, y)
}

#[test]
fn dev_only_cycle() {
    let (md, x, y) = metadata_cycle(DependencyKind::Development);
    let graph = PackageGraph::new(md, None).expect("construction succeeds");
    graph.verify().unwrap();
    let cycles = graph.cycles();
    let mut all = cycles.all_cycles();
    assert_eq!(all.len(), 1);
    let mut scc = all.pop().unwrap();
    scc.sort();
    assert_eq!(scc, vec![&x, &y]);
    assert_eq!(cycles.is_cyclic(&x, &y), Ok(true));
    assert_eq!(cycles.is_cyclic(&x, &x), Ok(false));
    assert_eq!(
        cycles.is_cyclic(&x, &id("nothing", "0.0.0")),
        Err(Error::UnknownPackageId(id("nothing", "0.0.0")))
    );
    assert_eq!(graph.depends_on(&x, &y), Ok(true));
    assert_eq!(graph.depends_on(&y, &x), Ok(true));

    // Without the links that are for tests alone nothing is left of the cycle.
    let mut graph = graph;
    graph.retain_edges(|_, link| !link.edge.dev_only());
    assert_eq!(graph.link_count(), 0);
    assert!(graph.cycles().all_cycles().is_empty());

    // The resolver follows the links only if it is asked to.
    let (md, x, y) = metadata_cycle(DependencyKind::Development);
    let graph = PackageGraph::new(md, None).unwrap();
    let features = graph.feature_graph().unwrap();
    let seed = features.node_ix(&FeatureId::base(&x)).unwrap();
    let without = guppy::graph::feature::FeatureQuery::new(&features, vec![seed])
        .resolve_cargo(&CargoOptions::new().with_dev_deps(false))
        .unwrap();
    assert_eq!(without.target_features().contains(&FeatureId::base(&y)), Ok(false));
    let with = guppy::graph::feature::FeatureQuery::new(&features, vec![seed])
        .resolve_cargo(&CargoOptions::new().with_dev_deps(true))
        .unwrap();
    assert_eq!(with.target_features().contains(&FeatureId::base(&y)), Ok(true));

    // In the feature graph the two packages are one component.
    let other = features.node_ix(&FeatureId::base(&y)).unwrap();
    let sccs = features.sccs();
    assert_eq!(sccs.iter().map(|scc| scc.len()).sum::<usize>(), features.feature_count());
    let mut large: Vec<Vec<usize>> = sccs.into_iter().filter(|scc| scc.len() >= 2).collect();
    assert_eq!(large.len(), 1);
    let mut scc = large.pop().unwrap();
    scc.sort();
    let mut expected = vec![seed, other];
    expected.sort();
    assert_eq!(scc, expected);
}

#[test]
fn normal_cycle_is_refused() {
    let (md, _, _) = metadata_cycle(DependencyKind::Normal);
    assert!(matches!(
        PackageGraph::new(md, None),
        Err(Error::PackageGraphInternalError(_))
    ));
    let (md, _, _) = metadata_cycle(DependencyKind::Build);
    assert!(matches!(
        PackageGraph::new(md, None),
        Err(Error::PackageGraphInternalError(_))
    ));
}

#[test]
fn construction_errors() {
    let construct = |md: Metadata| match PackageGraph::new(md, None) {
        Err(Error::PackageGraphConstructError(msg)) => msg,
        Err(other) => panic!("another error: {:?}", other),
        Ok(_) => panic!("the graph was built"),
    };
    // Two packages with one ID.
    let (mut md, _, _) = metadata_optional();
    let copy = md.packages[1].clone();
    md.packages.push(copy);
    construct(md);
    // No resolved dependencies.
    let (mut md, _, _) = metadata_optional();
    md.resolve = None;
    construct(md);
    // A workspace member that is no package.
    let (mut md, _, _) = metadata_optional();
    md.workspace_members.push(id("nothing", "0.0.0"));
    construct(md);
    // A workspace member outside the root.
    let (mut md, _, _) = metadata_optional();
    md.workspace_root = "/elsewhere".to_string();
    construct(md);
    // A member twice.
    let (mut md, a, _) = metadata_optional();
    md.workspace_members.push(a);
    construct(md);
    // A dependency on a package that is not there.
    let (mut md, _, _) = metadata_optional();
    md.packages.pop();
    construct(md);
    // A node of a package that is not there.
    let (mut md, _, _) = metadata_optional();
    md.resolve.as_mut().unwrap().nodes.push(node(&id("nothing", "0.0.0"), vec![]));
    construct(md);
    // A resolved dependency that the manifest does not declare.
    let (mut md, _, _) = metadata_optional();
    md.packages[0].dependencies.clear();
    construct(md);
    // A declared requirement that the resolved version does not meet.
    let (mut md, _, _) = metadata_optional();
    md.packages[0].dependencies[0].req = "^2".to_string();
    construct(md);
    // A target that is no target specification.
    let (mut md, _, _) = metadata_optional();
    md.packages[0].dependencies[0].target = Some("cfg(any(".to_string());
    construct(md);
    // Two dependencies on one package.
    let (mut md, a, b) = metadata_optional();
    md.resolve.as_mut().unwrap().nodes[0] = node(&a, vec![("B", &b), ("B", &b)]);
    construct(md);
}

#[test]
fn star_requirement_accepts_prereleases() {
    assert!(cargo_version_matches("*", "1.0.0-alpha.1"));
    assert!(cargo_version_matches("*", "not a version"));
    assert!(cargo_version_matches("^1.0", "1.2.3"));
    assert!(!cargo_version_matches("^1.0", "2.0.0"));
    assert!(!cargo_version_matches(">=1", "1.0.0-alpha.1"));
    assert!(!cargo_version_matches("not a requirement", "1.0.0"));
    assert!(!cargo_version_matches("^1.0", "not a version"));
    assert!(cargo_version_matches("=0.5.3", "0.5.3"));

    // In a graph.
    let (mut md, a, b) = metadata_optional();
    md.packages[0].dependencies[0].req = "*".to_string();
    md.packages[1].version = "1.0.0-beta.2".to_string();
    let graph = PackageGraph::new(md, None).unwrap();
    graph.verify().unwrap();
    assert_eq!(graph.depends_on(&a, &b), Ok(true));
}

#[test]
fn cmdlib_and_commands() {
    let (md, a, b) = metadata_optional();
    let graph = PackageGraph::new(md, None).unwrap();
    let features = graph.feature_graph().unwrap();

    let pf = PackagesAndFeatures {
        packages: vec![],
        features: strings(&["useB"]),
        all_features: false,
        no_default_features: false,
    };
    let query = pf.make_feature_query(&features).unwrap();
    // base(A) and (A, useB).
    assert_eq!(query.starts_from(), &vec![0, 1]);
    let pf_all = PackagesAndFeatures { all_features: true, features: vec![], ..pf.clone() };
    assert_eq!(
        pf_all.make_feature_query(&features).unwrap().starts_from(),
        &vec![0, 1, 2]
    );
    let pf_named = PackagesAndFeatures { packages: strings(&["A"]), ..pf.clone() };
    assert_eq!(
        pf_named.make_feature_query(&features).unwrap().starts_from(),
        &vec![0, 1]
    );
    let pf_unknown = PackagesAndFeatures { packages: strings(&["B"]), ..pf.clone() };
    assert!(matches!(
        pf_unknown.make_feature_query(&features),
        Err(Error::UnknownPackageId(_))
    ));
    assert_eq!(
        feature_filter(default_filter(), strings(&["x"])),
        guppy::graph::feature::FeatureFilter::Features {
            base: Box::new(guppy::graph::feature::FeatureFilter::Default),
            names: strings(&["x"]),
        }
    );

    let common = GuppyCargoCommon { pf, include_dev: false, target_platform: None };
    let map = common.resolve_guppy(&features).unwrap();
    assert_eq!(map.target_map.len(), 2);
    assert_eq!(
        map.host_map.get(b.repr.as_str()).unwrap().items(),
        &strings(&["f1"])
    );
    assert_eq!(
        common.make_target_platform(None),
        Err(Error::UnknownCurrentPlatform)
    );
    let windows = GuppyCargoCommon {
        target_platform: Some("x86_64-pc-windows-msvc".to_string()),
        ..common.clone()
    };
    assert_eq!(
        windows.make_target_platform(None).unwrap().triple(),
        "x86_64-pc-windows-msvc"
    );
    let nowhere = GuppyCargoCommon {
        target_platform: Some("nowhere".to_string()),
        ..common.clone()
    };
    assert!(nowhere.make_target_platform(None).is_err());

    let opts = ResolveCargoOptions {
        packages: strings(&["A"]),
        include_dev: false,
        target_platform: Some("x86_64-unknown-linux-gnu".to_string()),
        host_platform: None,
    };
    let set = opts.resolve(&features, None).unwrap();
    assert_eq!(set.target_features().contains(&FeatureId::base(&a)), Ok(true));
    assert_eq!(set.target_features().contains(&FeatureId::base(&b)), Ok(false));
    let bad = ResolveCargoOptions { target_platform: Some("nowhere".to_string()), ..opts.clone() };
    assert!(matches!(
        bad.resolve(&features, None),
        Err(Error::TargetEvalError { .. })
    ));

    let select = CmdSelectOptions {
        filter_opts: FilterOptions {
            include_dev: false,
            include_build: false,
            omit_edges_into: vec![],
            kind: Kind::DirectThirdParty,
        },
        output_direction: DependencyDirection::Reverse,
        output_dot: None,
        query_opts: QueryOptions { direction: DependencyDirection::Forward, roots: vec![] },
    };
    let (set, shown) = select.select(&graph).unwrap();
    assert_eq!(set.len(), 2);
    assert_eq!(shown, vec![1]);
    let select_all = CmdSelectOptions {
        filter_opts: FilterOptions { kind: Kind::All, ..select.filter_opts.clone() },
        query_opts: QueryOptions {
            direction: DependencyDirection::Reverse,
            roots: strings(&["B"]),
        },
        ..select.clone()
    };
    let (_, shown) = select_all.select(&graph).unwrap();
    assert_eq!(shown, vec![1, 0]);
    let select_unknown = CmdSelectOptions {
        query_opts: QueryOptions {
            direction: DependencyDirection::Forward,
            roots: strings(&["nothing"]),
        },
        ..select
    };
    assert!(matches!(
        select_unknown.select(&graph),
        Err(Error::UnknownPackageId(_))
    ));
}

#[test]
fn unknown_option_fails_the_resolver_on_a_platform() {
    let (mut md, a, _) = metadata_optional();
    md.packages[0].dependencies[0].target = Some("cfg(some_option)".to_string());
    let graph = PackageGraph::new(md, None).unwrap();
    let features = graph.feature_graph().unwrap();
    let linux = Platform::new("x86_64-unknown-linux-gnu", TargetFeatures::All);
    let on_linux = features
        .query_workspace(&all_filter())
        .resolve_cargo(&CargoOptions::new().with_target_platform(linux));
    match on_linux {
        Err(Error::TargetEvalError { platform, err }) => {
            assert_eq!(platform, "x86_64-unknown-linux-gnu");
            assert_eq!(err.message(), "target family not recognized: some_option");
        }
        _ => panic!("the resolution did not fail"),
    }
    // On any platform no specification is evaluated.
    let anywhere = features
        .query_workspace(&all_filter())
        .resolve_cargo(&CargoOptions::new())
        .unwrap();
    assert_eq!(anywhere.target_features().contains(&FeatureId::base(&a)), Ok(true));
    assert_eq!(
        Error::UnknownPackageId(a.clone()).message(),
        format!("Unknown package ID: {}", a.repr)
    );
}
