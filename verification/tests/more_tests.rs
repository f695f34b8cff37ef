use guppy::commands::{duplicates, SubtreeSizeOptions};
use guppy::compare::FeatureMap;
use guppy::graph::cargo::{CargoOptions, CargoResolverVersion};
use guppy::graph::feature::{all_filter, default_filter, FeatureId, FeatureNode};
use guppy::graph::workspace::{text_order, workspace_path, TextOrder};
use guppy::graph::{
    DependencyDirection, DependencyLink, FilterOptions, Kind, PackageGraph, TargetPredicate,
};
use guppy::metadata::{
    Dependency, DependencyKind, Metadata, Node, NodeDep, Package, PackageId, Resolve,
};
use guppy::sorted::{StringSet, StringSetMap};
use guppy::target_spec::parser::{
    all, cfg_spec, expression, identifier, not, parse_impl, test_set, triple_string, value,
};
use guppy::target_spec::types::{Atom, Expr, TargetEnum};
use guppy::target_spec::{eval, EvalError, ParseError, Platform, TargetFeatures, TargetSpec};
use guppy::Error;

fn path_id(name: &str) -> PackageId {
    PackageId::new(&format!("{} 0.1.0 (path+file:///ws/{})", name, name))
}

fn package(name: &str, deps: &[&str]) -> Package {
    Package {
        name: name.to_string(),
        version: "0.1.0".to_string(),
        authors: vec![],
        id: path_id(name),
        description: Some(format!("the package {}", name)),
        license: Some("MIT".to_string()),
        license_file: None,
        dependencies: deps
            .iter()
            .map(|dep| Dependency {
                name: dep.to_string(),
                rename: None,
                req: "^0.1".to_string(),
                kind: DependencyKind::Normal,
                optional: false,
                uses_default_features: true,
                features: vec![],
                target: None,
            })
            .collect(),
        features: vec![],
        manifest_path: format!("/ws/{}/Cargo.toml", name),
        categories: vec!["development-tools".to_string()],
        keywords: vec!["graph".to_string()],
        readme: Some("README.md".to_string()),
        repository: None,
        edition: "2018".to_string(),
        metadata: "{\"key\":1}".to_string(),
        links: None,
        publish: Some(vec![]),
    }
}

fn node(name: &str, deps: &[&str]) -> Node {
    Node {
        id: path_id(name),
        deps: deps
            .iter()
            .map(|dep| NodeDep {
                name: dep.to_string(),
                pkg: path_id(dep),
                dep_kinds: vec![DependencyKind::Normal],
            })
            .collect(),
        features: vec![],
    }
}

// r depends on a and b; a on c and d; b on c. Of them, r alone is in the
// workspace.
fn diamond() -> Metadata {
    let shape: Vec<(&str, Vec<&str>)> = vec![
        ("d", vec![]),
        ("c", vec![]),
        ("b", vec!["c"]),
        ("a", vec!["c", "d"]),
        ("r", vec!["a", "b"]),
    ];
    Metadata {
        packages: shape.iter().map(|(name, deps)| package(name, deps)).collect(),
        workspace_members: vec![path_id("r")],
        resolve: Some(Resolve {
            nodes: shape.iter().map(|(name, deps)| node(name, deps)).collect(),
        }),
        workspace_root: "/ws".to_string(),
    }
}

fn everything() -> FilterOptions {
    FilterOptions {
        include_dev: true,
        include_build: true,
        omit_edges_into: vec![],
        kind: Kind::All,
    }
}

#[test]
fn packages_come_before_what_they_depend_on() {
    let graph = PackageGraph::new(diamond(), None).unwrap();
    graph.verify().unwrap();
    let set = graph.query_workspace().resolve();
    assert_eq!(set.len(), 5);
    let forward = set.package_ixs(DependencyDirection::Forward);
    let position = |ix: usize| forward.iter().position(|p| *p == ix).unwrap();
    for package in graph.packages() {
        for link in graph.dep_links(package.id()).unwrap() {
            assert!(position(link.from.package_ix()) < position(link.to.package_ix()));
        }
    }
    let mut reverse = set.package_ixs(DependencyDirection::Reverse);
    reverse.reverse();
    assert_eq!(forward, reverse);
    assert_eq!(graph.topo(), &forward);

    // The packages that nothing depends on.
    assert_eq!(graph.roots(), vec![4]);
    assert_eq!(graph.package_ids()[4], &path_id("r"));
    assert_eq!(graph.package_ixs(&vec![path_id("a"), path_id("d")]), Ok(vec![3, 0]));
    assert!(duplicates(&set).is_empty());

    // What the metadata says of a package.
    let a = graph.metadata(&path_id("a")).unwrap();
    assert_eq!(a.name(), "a");
    assert_eq!(a.version(), "0.1.0");
    assert_eq!(a.description(), Some("the package a"));
    assert_eq!(a.license(), Some("MIT"));
    assert_eq!(a.license_file(), None);
    assert_eq!(a.manifest_path(), "/ws/a/Cargo.toml");
    assert_eq!(a.categories(), &vec!["development-tools".to_string()]);
    assert_eq!(a.keywords(), &vec!["graph".to_string()]);
    assert_eq!(a.readme(), Some("README.md"));
    assert_eq!(a.repository(), None);
    assert_eq!(a.edition(), "2018");
    assert_eq!(a.metadata_table(), "{\"key\":1}");
    assert_eq!(a.links(), None);
    assert_eq!(a.publish(), Some(&vec![]));
    assert!(a.authors().is_empty());
    assert_eq!(a.package_ix(), 3);
    assert_eq!(a.default_feature_id(), FeatureId::base(&path_id("a")));
    assert_eq!(
        a.all_feature_nodes(),
        vec![FeatureNode { package_ix: 3, feature_idx: None }]
    );
    assert!(a.named_features_full().is_empty());
    assert!(a.optional_deps_full().is_empty());
    assert_eq!(graph.data().packages().len(), 5);
    assert!(graph.data().metadata(&path_id("nothing")).is_none());
    assert_eq!(graph.data().package_ids().len(), 5);
    assert_eq!(graph.data().workspace().root(), "/ws");

    // A cache for repeated questions.
    let mut cache = graph.new_depends_cache();
    assert_eq!(cache.depends_on(&path_id("r"), &path_id("d")), Ok(true));
    assert_eq!(cache.depends_on(&path_id("b"), &path_id("d")), Ok(false));
    assert_eq!(cache.depends_on(&path_id("d"), &path_id("r")), Ok(false));
    assert_eq!(
        cache.depends_on(&path_id("nothing"), &path_id("r")),
        Err(Error::UnknownPackageId(path_id("nothing")))
    );
    assert!(graph.cycles().all_cycles().is_empty());
}

#[test]
fn what_each_package_alone_brings_in() {
    let graph = PackageGraph::new(diamond(), None).unwrap();
    let options = SubtreeSizeOptions { filter_opts: everything(), root: None };
    let unique = options.unique_deps(&graph).unwrap();
    let names = |ixs: &Vec<usize>| {
        let mut names: Vec<&str> = ixs.iter().map(|ix| graph.packages()[*ix].name()).collect();
        names.sort();
        names
    };
    assert_eq!(unique.len(), 5);
    for (top, deps) in &unique {
        let expected: Vec<&str> = match graph.packages()[*top].name() {
            "r" => vec!["a", "b", "c", "d"],
            "a" => vec!["d"],
            _ => vec![],
        };
        assert_eq!(names(deps), expected);
    }

    // From a root.
    let options = SubtreeSizeOptions { filter_opts: everything(), root: Some("a".to_string()) };
    let unique = options.unique_deps(&graph).unwrap();
    let tops: Vec<&str> = unique
        .iter()
        .map(|(top, _)| graph.packages()[*top].name())
        .collect();
    assert_eq!(tops.len(), 3);
    assert_eq!(tops[0], "a");
    // Seen from a, nothing outside its subtree leads to c.
    assert_eq!(names(&unique[0].1), vec!["c", "d"]);

    let options = SubtreeSizeOptions {
        filter_opts: everything(),
        root: Some("nothing".to_string()),
    };
    assert_eq!(
        options.unique_deps(&graph),
        Err(Error::UnknownPackageId(PackageId::new("nothing")))
    );
}

#[test]
fn target_specs_at_the_edges_of_the_grammar() {
    let linux = "x86_64-unknown-linux-gnu";
    let mac = "x86_64-apple-darwin";
    // Blanks are in order around tokens.
    assert_eq!(eval("cfg( windows )", linux), Ok(false));
    assert_eq!(eval("  cfg(unix)\t", linux), Ok(true));
    assert_eq!(eval("cfg(target_os=\"linux\")", linux), Ok(true));
    assert_eq!(eval("cfg( target_os\t=  \"linux\" )", linux), Ok(true));
    assert_eq!(
        eval("cfg(all(unix, target_arch = \"x86_64\", not(windows)))", linux),
        Ok(true)
    );
    assert_eq!(eval("cfg(unix)", mac), Ok(true));
    assert_eq!(eval("cfg(unix)", "x86_64-pc-windows-msvc"), Ok(false));
    // A keyword needs its parenthesis next to it.
    assert!(matches!(eval("cfg (unix)", linux), Err(EvalError::InvalidSpec(_))));
    assert!(matches!(eval("cfg(any (unix))", linux), Err(EvalError::InvalidSpec(_))));
    // A list holds an expression.
    assert!(matches!(eval("cfg(any())", linux), Err(EvalError::InvalidSpec(_))));
    assert!(matches!(eval("cfg(any(unix,))", linux), Err(EvalError::InvalidSpec(_))));
    assert!(matches!(eval("cfg(unix) x", linux), Err(EvalError::InvalidSpec(_))));
    assert!(matches!(eval("cfg(unix", linux), Err(EvalError::InvalidSpec(_))));
    assert!(matches!(eval("", linux), Err(EvalError::InvalidSpec(_))));
    assert!(matches!(eval("x86_64 linux", linux), Err(EvalError::InvalidSpec(_))));
    assert_eq!(
        eval("cfg(", linux),
        Err(EvalError::InvalidSpec(ParseError { input: "cfg(".to_string() }))
    );
    // Identifiers that look like keywords.
    assert!(matches!(eval("cfg(any)", linux), Err(EvalError::UnknownOption(name)) if name == "any"));
    assert!(matches!(
        eval("cfg(anything)", linux),
        Err(EvalError::UnknownOption(name)) if name == "anything"
    ));
    // A triple is a triple, whatever it starts with.
    assert_eq!(eval("cfg", linux), Ok(false));
    assert_eq!(eval(mac, mac), Ok(true));
    assert_eq!(eval(mac, linux), Ok(false));
    assert_eq!(eval(linux, "nowhere"), Err(EvalError::TargetNotFound));

    // The keys.
    assert_eq!(eval("cfg(target_env = \"gnu\")", linux), Ok(true));
    assert_eq!(eval("cfg(target_env = \"\")", mac), Ok(true));
    assert_eq!(eval("cfg(target_env = \"msvc\")", "x86_64-pc-windows-msvc"), Ok(true));
    assert_eq!(eval("cfg(target_arch = \"x86\")", "i686-pc-windows-msvc"), Ok(true));
    assert_eq!(eval("cfg(target_arch = \"x86\")", linux), Ok(false));
    assert_eq!(eval("cfg(target_vendor = \"unknown\")", mac), Ok(true));
    assert_eq!(eval("cfg(target_vendor = \"apple\")", mac), Ok(false));
    assert_eq!(eval("cfg(feature = \"std\")", linux), Ok(false));
    assert_eq!(eval("cfg(not(feature = \"std\"))", linux), Ok(true));
    assert_eq!(
        eval("cfg(target_pointer_width = \"64\")", linux),
        Err(EvalError::UnknownOption("target_pointer_width".to_string()))
    );
    // The parts are evaluated from the left, up to the first that decides.
    assert_eq!(eval("cfg(any(unix, foo))", linux), Ok(true));
    assert_eq!(
        eval("cfg(any(foo, unix))", linux),
        Err(EvalError::UnknownOption("foo".to_string()))
    );
    assert_eq!(eval("cfg(all(windows, foo))", linux), Ok(false));
    assert_eq!(
        eval("cfg(all(unix, foo))", linux),
        Err(EvalError::UnknownOption("foo".to_string()))
    );

    // Messages.
    assert_eq!(EvalError::TargetNotFound.message(), "target triple not found in database");
    assert_eq!(
        EvalError::UnknownOption("foo".to_string()).message(),
        "target family not recognized: foo"
    );
    let parse_error = ParseError { input: "(".to_string() };
    assert_eq!(parse_error.message(), "target spec parsing failed");
    let invalid = EvalError::InvalidSpec(parse_error.clone());
    assert_eq!(invalid.message(), "invalid target spec");
    assert_eq!(invalid.source(), Some(&parse_error));
    assert_eq!(EvalError::TargetNotFound.source(), None);
}

#[test]
fn parsers_of_the_parts() {
    assert_eq!(
        identifier("abc def"),
        Ok((" def".to_string(), Atom::Ident("abc".to_string())))
    );
    assert_eq!(
        identifier("_a9-b"),
        Ok(("-b".to_string(), Atom::Ident("_a9".to_string())))
    );
    assert_eq!(identifier("9abc"), Err(ParseError { input: "9abc".to_string() }));
    assert_eq!(identifier(""), Err(ParseError { input: "".to_string() }));
    assert_eq!(
        value("\"a\\\\b\" rest"),
        Ok((" rest".to_string(), Atom::Value("a\\b".to_string())))
    );
    assert!(value("\"abc").is_err());
    assert!(value("\"a\\nb\"").is_err());
    assert!(value("abc").is_err());
    assert_eq!(
        all("all(windows)"),
        Ok((
            "".to_string(),
            Expr::All(vec![Expr::TestSet(Atom::Ident("windows".to_string()))])
        ))
    );
    assert!(all("any(windows)").is_err());
    assert_eq!(
        not(" not( unix ) ,"),
        Ok((
            ",".to_string(),
            Expr::Not(Box::new(Expr::TestSet(Atom::Ident("unix".to_string()))))
        ))
    );
    assert_eq!(
        test_set(" unix  )"),
        Ok((")".to_string(), Expr::TestSet(Atom::Ident("unix".to_string()))))
    );
    assert!(test_set("a = \"b\"").is_err());
    assert_eq!(
        expression("a = \"b\""),
        Ok((
            "".to_string(),
            Expr::TestEqual(Atom::Ident("a".to_string()), Atom::Value("b".to_string()))
        ))
    );
    assert!(expression("a = b").is_err());
    assert_eq!(
        cfg_spec("cfg(unix)"),
        Ok(Expr::TestSet(Atom::Ident("unix".to_string())))
    );
    assert!(cfg_spec("unix").is_err());
    assert_eq!(
        triple_string("x86_64-unknown linux"),
        Ok((" linux".to_string(), "x86_64-unknown".to_string()))
    );
    assert!(triple_string(" x86").is_err());
    assert_eq!(
        parse_impl("i686-pc-windows-gnu"),
        Ok(TargetEnum::Triple("i686-pc-windows-gnu".to_string()))
    );
    let spec = TargetSpec::new("cfg(any(windows, target_arch = \"x86_64\"))").unwrap();
    assert_eq!(spec.duplicate(), spec);
    assert_eq!(spec.clone(), spec);
    let i686_windows = Platform::new("i686-pc-windows-gnu", TargetFeatures::All).unwrap();
    let x86_64_mac = Platform::new("x86_64-apple-darwin", TargetFeatures::none()).unwrap();
    let i686_linux =
        Platform::new("i686-unknown-linux-gnu", TargetFeatures::features(&["sse2"])).unwrap();
    assert_eq!(spec.eval(&i686_windows), Ok(true));
    assert_eq!(spec.eval(&x86_64_mac), Ok(true));
    assert_eq!(spec.eval(&i686_linux), Ok(false));
    let spec: TargetSpec = "cfg(any(target_feature = \"sse2\", target_feature = \"sse\"))"
        .parse()
        .unwrap();
    assert_eq!(spec.eval(&i686_windows), Ok(true));
    assert_eq!(spec.eval(&x86_64_mac), Ok(false));
    assert_eq!(spec.eval(&i686_linux), Ok(true));
    assert!(Platform::new("nowhere", TargetFeatures::All).is_none());
    assert_eq!(i686_linux.triple(), "i686-unknown-linux-gnu");
    assert_eq!(i686_linux.os(), "linux");
    assert_eq!(i686_linux.arch(), "x86");
    assert_eq!(i686_linux.env(), "gnu");
    assert!(i686_linux.target_features().matches("sse2"));
    assert!(!i686_linux.target_features().matches("sse"));
    assert!(!TargetFeatures::none().matches("sse"));
    assert!(TargetFeatures::All.matches("anything"));
    assert_eq!(i686_linux.duplicate(), i686_linux);
}

#[test]
fn predicates() {
    let linux = Platform::new("x86_64-unknown-linux-gnu", TargetFeatures::All).unwrap();
    let windows = Platform::new("x86_64-pc-windows-msvc", TargetFeatures::All).unwrap();
    let mut predicate = TargetPredicate::never();
    assert!(predicate.is_empty());
    assert_eq!(predicate.eval(&linux), Ok(false));
    assert_eq!(predicate.eval_opt(&None), Ok(false));
    predicate.add_spec(Some(TargetSpec::new("cfg(windows)").unwrap()));
    predicate.add_spec(Some(TargetSpec::new("x86_64-unknown-linux-gnu").unwrap()));
    assert!(!predicate.is_empty());
    assert_eq!(predicate.eval(&linux), Ok(true));
    assert_eq!(predicate.eval(&windows), Ok(true));
    assert_eq!(
        predicate.eval(&Platform::new("x86_64-apple-darwin", TargetFeatures::All).unwrap()),
        Ok(false)
    );
    assert_eq!(predicate.eval_opt(&None), Err(EvalError::TargetNotFound));
    assert_eq!(predicate.duplicate(), predicate);
    predicate.add_spec(None);
    assert_eq!(predicate, TargetPredicate::Always);
    assert_eq!(predicate.eval_opt(&None), Ok(true));
    predicate.add_spec(Some(TargetSpec::new("cfg(foo)").unwrap()));
    assert_eq!(predicate.eval(&linux), Ok(true));
    let mut failing = TargetPredicate::never();
    failing.add_spec(Some(TargetSpec::new("cfg(foo)").unwrap()));
    failing.add_spec(Some(TargetSpec::new("cfg(unix)").unwrap()));
    assert_eq!(failing.eval(&linux), Err(EvalError::UnknownOption("foo".to_string())));
}

#[test]
fn paths_and_orders() {
    assert_eq!(workspace_path("/ws", "/ws/a/b/Cargo.toml"), Some("a/b".to_string()));
    assert_eq!(workspace_path("/ws/", "/ws/a/Cargo.toml"), Some("a".to_string()));
    assert_eq!(workspace_path("/ws", "/ws/Cargo.toml"), Some("".to_string()));
    assert_eq!(workspace_path("/ws", "/wsx/a/Cargo.toml"), None);
    assert_eq!(workspace_path("/ws", "/ws"), None);
    assert_eq!(workspace_path("/ws", "/w"), None);
    assert_eq!(workspace_path("", "a/Cargo.toml"), Some("a".to_string()));
    assert_eq!(text_order("a", "b"), TextOrder::Before);
    assert_eq!(text_order("b", "a"), TextOrder::After);
    assert_eq!(text_order("ab", "ab"), TextOrder::Same);
    assert_eq!(text_order("a", "ab"), TextOrder::Before);
    assert_eq!(text_order("", ""), TextOrder::Same);
    assert_eq!(text_order("a-b", "a/b"), TextOrder::Before);

    let mut set = StringSet::new();
    for item in &["pear", "apple", "fig", "apple"] {
        set.insert(item.to_string());
    }
    assert_eq!(
        set.items(),
        &vec!["apple".to_string(), "fig".to_string(), "pear".to_string()]
    );
    assert!(set.contains("fig"));
    assert!(!set.contains("plum"));
    let mut map = StringSetMap::new();
    map.insert("b".to_string(), set.clone());
    map.insert("a".to_string(), StringSet::new());
    map.insert("b".to_string(), StringSet::new());
    assert_eq!(map.len(), 2);
    assert_eq!(map.entry(0).0, "a");
    assert_eq!(map.entry(1).0, "b");
    assert!(map.get("b").unwrap().items().is_empty());
    assert_eq!(map.duplicate(), map);
}

#[test]
fn feature_graph_of_the_diamond() {
    let mut md = diamond();
    // a has the features default = ["extra", "c/fast"] and extra = [];
    // c has the feature fast.
    md.packages[3].features = vec![
        ("default".to_string(), vec!["extra".to_string(), "c/fast".to_string()]),
        ("extra".to_string(), vec![]),
    ];
    md.packages[1].features = vec![("fast".to_string(), vec![])];
    let graph = PackageGraph::new(md, None).unwrap();
    let a = graph.metadata(&path_id("a")).unwrap();
    assert!(a.has_default_feature());
    assert_eq!(a.default_feature_id(), FeatureId::new(&path_id("a"), "default"));
    assert_eq!(a.named_features(), vec!["default", "extra"]);
    assert_eq!(
        a.named_features_full(),
        vec![
            (0, "default", &vec!["extra".to_string(), "c/fast".to_string()]),
            (1, "extra", &vec![]),
        ]
    );
    let features = graph.feature_graph().unwrap();
    assert!(features.warnings().is_empty());
    // Five bases and three features.
    assert_eq!(features.feature_count(), 8);
    // Three edges to the bases, two edges of the feature default, five
    // links between packages, and one edge to the default feature of a.
    assert_eq!(features.link_count(), 11);
    // Every feature leads to its package.
    for ix in 0..features.feature_count() {
        let node = features.node(ix);
        if node.feature_idx.is_some() {
            let base = features.base_ix(node.package_ix);
            let set = guppy::graph::feature::FeatureQuery::new(&features, vec![ix]).resolve();
            assert!(set.contains_ix(base));
        }
    }

    // With the default features, r turns on the fast feature of c.
    let with_default = features
        .query_workspace(&default_filter())
        .resolve_cargo(&CargoOptions::new().with_version(CargoResolverVersion::V1))
        .unwrap();
    assert_eq!(
        with_default
            .target_features()
            .contains(&FeatureId::new(&path_id("c"), "fast")),
        Ok(true)
    );
    assert_eq!(
        with_default
            .target_features()
            .contains(&FeatureId::new(&path_id("a"), "extra")),
        Ok(true)
    );
    assert_eq!(with_default.target_features().len(), 8);
    let map = FeatureMap::from_guppy(&with_default, false);
    assert_eq!(map.target_map, map.host_map);
    assert_eq!(map.target_map.len(), 5);
    assert_eq!(
        map.target_map.get(path_id("a").repr.as_str()).unwrap().items(),
        &vec!["default".to_string(), "extra".to_string()]
    );
    assert!(map
        .target_map
        .get(path_id("b").repr.as_str())
        .unwrap()
        .items()
        .is_empty());
    let all = features
        .query_workspace(&all_filter())
        .resolve()
        .union(with_default.host_features());
    assert_eq!(all.len(), 8);
    assert_eq!(all.duplicate().len(), 8);
}

#[test]
fn links_by_direction() {
    let graph = PackageGraph::new(diamond(), None).unwrap();
    let names = |links: Vec<DependencyLink<'_>>, from: bool| {
        let mut names: Vec<String> = links
            .iter()
            .map(|link| {
                if from {
                    link.from.name().to_string()
                } else {
                    link.to.name().to_string()
                }
            })
            .collect();
        names.sort();
        names
    };
    assert_eq!(
        names(graph.dep_links(&path_id("a")).unwrap(), false),
        vec!["c", "d"]
    );
    assert_eq!(
        names(graph.reverse_dep_links(&path_id("c")).unwrap(), true),
        vec!["a", "b"]
    );
    assert_eq!(
        names(
            graph
                .dep_links_directed(&path_id("c"), DependencyDirection::Forward)
                .unwrap(),
            false
        ),
        Vec::<String>::new()
    );
    let link = &graph.dep_links(&path_id("b")).unwrap()[0];
    assert_eq!(
        link.edge
            .metadata_for_kind(DependencyKind::Normal)
            .unwrap()
            .version_req(),
        "^0.1"
    );
    assert!(link.edge.metadata_for_kind(DependencyKind::Build).is_none());
    assert!(link.edge.metadata_for_kind(DependencyKind::Development).is_none());
    let req = link.edge.normal().unwrap().dependency_req();
    assert!(req.optional.all_features().is_empty());
    assert_eq!(req.mandatory.build_if, TargetPredicate::Always);
    assert!(req.optional.build_if.is_empty());
    let reverse = graph
        .query_directed(&vec![path_id("c")], DependencyDirection::Reverse)
        .unwrap()
        .resolve();
    assert_eq!(reverse.len(), 4);
    assert_eq!(reverse.contains(&path_id("d")), Ok(false));
    assert_eq!(
        reverse.contains(&path_id("nothing")),
        Err(Error::UnknownPackageId(path_id("nothing")))
    );
    let names: Vec<&str> = reverse
        .packages(DependencyDirection::Reverse)
        .iter()
        .map(|package| package.name())
        .collect();
    assert_eq!(names[0], "c");
    assert_eq!(names[3], "r");
    let by_name = graph
        .query_workspace_names(&vec!["r".to_string()])
        .unwrap()
        .resolve();
    assert_eq!(by_name.len(), 5);
    assert_eq!(
        graph
            .query_workspace_names(&vec!["a".to_string()])
            .err(),
        Some(Error::UnknownPackageId(PackageId::new("a")))
    );
}

#[test]
fn messages_of_errors() {
    let id = path_id("a");
    assert_eq!(
        Error::CommandError("no cargo".to_string()).message(),
        "Error while executing 'cargo metadata': no cargo"
    );
    assert_eq!(
        Error::MetadataParseError("EOF".to_string()).message(),
        "Error while parsing 'cargo metadata' JSON output: EOF"
    );
    assert_eq!(
        Error::PackageGraphConstructError("no packages".to_string()).message(),
        "Error while computing package graph: no packages"
    );
    assert_eq!(
        Error::UnknownPackageId(id.clone()).message(),
        format!("Unknown package ID: {}", id.repr)
    );
    assert_eq!(
        Error::UnknownFeatureId(id.clone(), Some("std".to_string())).message(),
        format!("Unknown feature ID: '{}' 'std'", id.repr)
    );
    assert_eq!(
        Error::UnknownFeatureId(id.clone(), None).message(),
        format!("Unknown feature ID: '{}' (base)", id.repr)
    );
    assert_eq!(Error::UnknownCurrentPlatform.message(), "Unknown current platform");
    let eval_error = Error::TargetEvalError {
        platform: "x86_64-unknown-linux-gnu".to_string(),
        err: EvalError::TargetNotFound,
    };
    assert_eq!(
        eval_error.message(),
        "Error while evaluating target specifications against platform \
         'x86_64-unknown-linux-gnu': target triple not found in database"
    );
    assert_eq!(eval_error.source(), Some(&EvalError::TargetNotFound));
    assert_eq!(Error::UnknownCurrentPlatform.source(), None);
    assert_eq!(
        Error::PackageGraphInternalError("a cycle".to_string()).message(),
        "Internal error in package graph: a cycle"
    );
    let stage = guppy::FeatureBuildStage::AddDependencyEdges {
        package_id: id.clone(),
        dep_name: "b".to_string(),
    };
    assert_eq!(
        stage.message(),
        format!("for package '{}', while adding edges for dependency 'b'", id.repr)
    );
}

#[test]
fn forward_sets_agree_with_depends_on() {
    let graph = PackageGraph::new(diamond(), None).unwrap();
    for from in graph.packages() {
        let set = graph.query_forward(&vec![from.id().clone()]).unwrap().resolve();
        for to in graph.packages() {
            assert_eq!(
                set.contains(to.id()),
                graph.depends_on(from.id(), to.id()),
                "{} -> {}",
                from.name(),
                to.name()
            );
        }
    }
}
