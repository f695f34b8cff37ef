use guppy::graph::cargo::CargoOptions;
use guppy::graph::feature::{
    all_filter, default_filter, none_filter, FeatureFilter, FeatureId, FeatureQuery,
};
use guppy::graph::{
    DependencyDirection, DependencyLink, DependencyStatus, DotGraph, FilterOptions, Kind,
    PackageDotVisitor, PackageGraph, PackageMetadata,
};
use guppy::metadata::{
    Dependency, DependencyKind, Metadata, Node, NodeDep, Package, PackageId, Resolve,
};
use guppy::{Error, FeatureBuildStage, FeatureGraphWarning, Platform, TargetFeatures};

fn id(name: &str, version: &str) -> PackageId {
    PackageId::new(&format!(
        "{} {} (registry+https://github.com/rust-lang/crates.io-index)",
        name, version
    ))
}

fn path_id(name: &str, version: &str, path: &str) -> PackageId {
    PackageId::new(&format!("{} {} (path+file://{})", name, version, path))
}

fn package(id: PackageId, name: &str, version: &str, manifest_path: &str) -> Package {
    Package {
        name: name.to_string(),
        version: version.to_string(),
        authors: vec!["Fake Author <fakeauthor@example.com>".to_string()],
        id,
        description: None,
        license: None,
        license_file: None,
        dependencies: vec![],
        features: vec![],
        manifest_path: manifest_path.to_string(),
        categories: vec![],
        keywords: vec![],
        readme: None,
        repository: None,
        edition: "2018".to_string(),
        metadata: "null".to_string(),
        links: None,
        publish: None,
    }
}

fn registry_package(name: &str, version: &str) -> Package {
    package(
        id(name, version),
        name,
        version,
        &format!("/registry/{}-{}/Cargo.toml", name, version),
    )
}

fn dep(name: &str, req: &str, kind: DependencyKind) -> Dependency {
    Dependency {
        name: name.to_string(),
        rename: None,
        req: req.to_string(),
        kind,
        optional: false,
        uses_default_features: true,
        features: vec![],
        target: None,
    }
}

fn node(id: &PackageId, deps: Vec<(&str, &PackageId)>) -> Node {
    Node {
        id: id.clone(),
        deps: deps
            .into_iter()
            .map(|(name, pkg)| NodeDep {
                name: name.to_string(),
                pkg: pkg.clone(),
                dep_kinds: vec![],
            })
            .collect(),
        features: vec![],
    }
}

fn metadata(packages: Vec<Package>, members: Vec<PackageId>, nodes: Vec<Node>, root: &str) -> Metadata {
    Metadata {
        packages,
        workspace_members: members,
        resolve: Some(Resolve { nodes }),
        workspace_root: root.to_string(),
    }
}

fn linux() -> Option<Platform> {
    Platform::new("x86_64-unknown-linux-gnu", TargetFeatures::All)
}

// A root crate with one dependency that is a normal, a build and a dev
// dependency at once, and the dependencies of that dependency.
fn metadata1() -> (Metadata, PackageId, PackageId) {
    let testcrate = path_id("testcrate", "0.1.0", "/fakepath/testcrate");
    let datatest = id("datatest", "0.4.2");
    let regex = id("regex", "1.3.1");
    let serde = id("serde", "1.0.100");
    let mut root = package(
        testcrate.clone(),
        "testcrate",
        "0.1.0",
        "/fakepath/testcrate/Cargo.toml",
    );
    root.dependencies = vec![
        dep("datatest", "^0.4.2", DependencyKind::Normal),
        dep("datatest", "^0.4.2", DependencyKind::Build),
        dep("datatest", "^0.4.2", DependencyKind::Development),
    ];
    let mut dt = registry_package("datatest", "0.4.2");
    dt.dependencies = vec![
        dep("regex", "^1.0.0", DependencyKind::Normal),
        dep("serde", "^1.0.84", DependencyKind::Normal),
    ];
    let md = metadata(
        vec![
            root,
            dt,
            registry_package("regex", "1.3.1"),
            registry_package("serde", "1.0.100"),
        ],
        vec![testcrate.clone()],
        vec![
            node(&testcrate, vec![("datatest", &datatest)]),
            node(&datatest, vec![("regex", &regex), ("serde", &serde)]),
            node(&regex, vec![]),
            node(&serde, vec![]),
        ],
        "/fakepath/testcrate",
    );
    (md, testcrate, datatest)
}

struct NameVisitor;

impl PackageDotVisitor for NameVisitor {
    fn visit_package(&self, package: &PackageMetadata) -> String {
        package.name().to_string()
    }

    fn visit_link(&self, link: DependencyLink<'_>) -> String {
        link.edge.dep_name().to_string()
    }
}

#[test]
fn metadata1_single_dep_chain() {
    let (md, testcrate, datatest) = metadata1();
    let graph = PackageGraph::new(md, linux()).expect("constructing package graph should succeed");
    graph.verify().expect("graph verification should succeed");

    let mut root_deps = graph
        .dep_links(&testcrate)
        .expect("root crate deps should exist");
    assert_eq!(root_deps.len(), 1, "the root crate has one dependency");
    let dep = root_deps.pop().expect("the root crate has one dependency");
    assert_eq!(dep.to.id(), &datatest);
    assert_eq!(dep.from.id(), &testcrate);
    assert!(dep.edge.normal().is_some(), "normal dependency is defined");
    assert!(dep.edge.build().is_some(), "build dependency is defined");
    assert!(dep.edge.dev().is_some(), "dev dependency is defined");
    assert!(!dep.edge.dev_only());
    assert_eq!(graph.package_count(), 4);
    assert_eq!(graph.link_count(), 3);

    // Workspace.
    let members = graph.workspace().members();
    assert_eq!(members.len(), 1);
    assert_eq!(members[0], ("".to_string(), testcrate.clone()));
    assert!(graph.metadata(&testcrate).unwrap().in_workspace());
    assert!(!graph.metadata(&datatest).unwrap().in_workspace());
    assert_eq!(graph.metadata(&datatest).unwrap().workspace_path(), None);

    // Reachability.
    assert_eq!(graph.depends_on(&testcrate, &id("serde", "1.0.100")), Ok(true));
    assert_eq!(graph.depends_on(&id("serde", "1.0.100"), &testcrate), Ok(false));
    assert_eq!(graph.depends_on(&testcrate, &testcrate), Ok(true));
    let unknown = id("nothing", "0.0.0");
    assert_eq!(
        graph.depends_on(&testcrate, &unknown),
        Err(Error::UnknownPackageId(unknown.clone()))
    );
    assert!(graph.dep_links(&unknown).is_none());

    // Reverse links.
    let reverse = graph.reverse_dep_links(&datatest).unwrap();
    assert_eq!(reverse.len(), 1);
    assert_eq!(reverse[0].from.id(), &testcrate);
}

#[test]
fn select_forward_and_reverse_with_dot() {
    let (md, testcrate, datatest) = metadata1();
    let graph = PackageGraph::new(md, None).unwrap();

    let forward = graph.query_forward(&vec![datatest.clone()]).unwrap().resolve();
    let ids = forward.package_ids(DependencyDirection::Forward);
    assert_eq!(ids.len(), 3);
    assert_eq!(ids[0], &datatest, "a package comes before its dependencies");
    assert_eq!(forward.len(), 3);
    assert_eq!(forward.contains(&testcrate), Ok(false));
    let reversed_ids = forward.package_ids(DependencyDirection::Reverse);
    assert_eq!(reversed_ids[2], &datatest);

    let dot = forward.display_dot(&NameVisitor);
    assert_eq!(
        dot,
        DotGraph {
            nodes: vec![
                (1, "datatest".to_string()),
                (2, "regex".to_string()),
                (3, "serde".to_string())
            ],
            edges: vec![
                (1, 2, "regex".to_string()),
                (1, 3, "serde".to_string())
            ],
        }
    );
    // The ids of the nodes are those of the packages of the set.
    let mut shown: Vec<usize> = dot.nodes.iter().map(|n| n.0).collect();
    let mut listed = forward.package_ixs(DependencyDirection::Forward);
    shown.sort();
    listed.sort();
    assert_eq!(shown, listed);

    // For reverse reachable ensure that the arrows are in the correct direction.
    let reverse = graph
        .query_reverse(&vec![id("serde", "1.0.100")])
        .unwrap()
        .resolve();
    let dot = reverse.display_dot(&NameVisitor);
    assert_eq!(
        dot,
        DotGraph {
            nodes: vec![
                (0, "testcrate".to_string()),
                (1, "datatest".to_string()),
                (3, "serde".to_string())
            ],
            edges: vec![
                (0, 1, "datatest".to_string()),
                (1, 3, "serde".to_string())
            ],
        }
    );

    let unknown = id("nothing", "0.0.0");
    assert!(matches!(
        graph.query_forward(&vec![datatest.clone(), unknown.clone()]),
        Err(Error::UnknownPackageId(id)) if id == unknown
    ));
}

#[test]
fn resolve_with_filters() {
    let (md, testcrate, datatest) = metadata1();
    let mut md = md;
    // serde becomes a dev dependency of datatest.
    md.packages[1].dependencies[1].kind = DependencyKind::Development;
    let graph = PackageGraph::new(md, None).unwrap();
    let normal_only = FilterOptions {
        include_dev: false,
        include_build: false,
        omit_edges_into: vec![],
        kind: Kind::All,
    };
    let set = graph.query_workspace().resolve_with(&normal_only);
    assert_eq!(set.contains(&datatest), Ok(true));
    assert_eq!(set.contains(&id("regex", "1.3.1")), Ok(true));
    assert_eq!(set.contains(&id("serde", "1.0.100")), Ok(false));

    let with_dev = FilterOptions { include_dev: true, ..normal_only.clone() };
    let set = graph.query_workspace().resolve_with(&with_dev);
    assert_eq!(set.contains(&id("serde", "1.0.100")), Ok(true));

    let omit = FilterOptions {
        omit_edges_into: vec!["datatest".to_string()],
        ..with_dev.clone()
    };
    let set = graph.query_workspace().resolve_with(&omit);
    assert_eq!(set.len(), 1);
    assert_eq!(set.contains(&testcrate), Ok(true));

    let workspace_only = FilterOptions { kind: Kind::Workspace, ..with_dev.clone() };
    let set = graph.query_workspace().resolve_with(&workspace_only);
    assert_eq!(set.len(), 1);

    let direct = FilterOptions { kind: Kind::DirectThirdParty, ..with_dev };
    let set = graph.query_workspace().resolve_with(&direct);
    assert_eq!(set.len(), 2);

    let set = graph
        .query_workspace()
        .resolve_with_fn(|link: DependencyLink<'_>| link.to.name() != "regex");
    assert_eq!(set.contains(&id("regex", "1.3.1")), Ok(false));
    assert_eq!(set.contains(&id("serde", "1.0.100")), Ok(true));
}

#[test]
fn retain_edges_drops_links() {
    let (md, testcrate, datatest) = metadata1();
    let mut graph = PackageGraph::new(md, None).unwrap();
    graph.retain_edges(|_data, link| link.to.name() != "serde");
    assert_eq!(graph.link_count(), 2);
    graph.verify().unwrap();
    assert_eq!(graph.depends_on(&testcrate, &id("serde", "1.0.100")), Ok(false));
    assert_eq!(graph.depends_on(&testcrate, &id("regex", "1.3.1")), Ok(true));
    let links = graph.dep_links(&datatest).unwrap();
    assert_eq!(links.len(), 1);
    assert_eq!(links[0].to.name(), "regex");
    assert_eq!(graph.package_count(), 4);
}
