//! The resolved metadata of a workspace, as `cargo metadata` reports it:
//! the packages with their declared dependencies, the resolved dependency
//! graph, and the members of the workspace.

use vstd::prelude::*;

verus! {

/// An "opaque" identifier for a package, of the form
/// `<name> <version> (<source>)`.
#[derive(Clone, Debug, PartialEq, Eq, Hash, PartialOrd, Ord)]
pub struct PackageId {
    /// The underlying string representation of the ID.
    pub repr: String,
}

impl View for PackageId {
    type V = Seq<char>;

    open spec fn view(&self) -> Seq<char> {
        self.repr@
    }
}

impl PackageId {
    /// The identifier with the given representation.
    pub fn new(repr: &str) -> (id: PackageId)
        ensures
            id@ == repr@,
    {
        PackageId { repr: repr.to_owned() }
    }

    /// A copy of this identifier.
    pub fn duplicate(&self) -> (id: PackageId)
        ensures
            id@ == self@,
    {
        PackageId { repr: self.repr.clone() }
    }
}

/// The section of a manifest that declares a dependency.
#[derive(Clone, Copy, Debug, PartialEq, Eq, Structural)]
pub enum DependencyKind {
    /// The 'normal' kind.
    Normal,
    /// Those used in tests only.
    Development,
    /// Those used in build scripts only.
    Build,
}

/// A dependency as a manifest declares it.
#[derive(Clone, Debug, PartialEq, Eq)]
pub struct Dependency {
    /// Name as given in the `Cargo.toml`.
    pub name: String,
    /// If the dependency is renamed, this is the new name for the dependency.
    pub rename: Option<String>,
    /// The required version.
    pub req: String,
    /// The kind of dependency this is.
    pub kind: DependencyKind,
    /// Whether this dependency is required or optional.
    pub optional: bool,
    /// Whether the default features in this dependency are used.
    pub uses_default_features: bool,
    /// The list of features enabled for this dependency.
    pub features: Vec<String>,
    /// The target this dependency is specific to: a `cfg` expression or a triple.
    pub target: Option<String>,
}

/// A package of the metadata.
#[derive(Clone, Debug, PartialEq, Eq)]
pub struct Package {
    /// Name as given in the `Cargo.toml`.
    pub name: String,
    /// Version given in the `Cargo.toml`.
    pub version: String,
    /// Authors given in the `Cargo.toml`.
    pub authors: Vec<String>,
    /// An opaque identifier for a package.
    pub id: PackageId,
    /// Description as given in the `Cargo.toml`.
    pub description: Option<String>,
    /// License as given in the `Cargo.toml`.
    pub license: Option<String>,
    /// If the package is using a nonstandard license, the path of its file.
    pub license_file: Option<String>,
    /// List of dependencies of this particular package.
    pub dependencies: Vec<Dependency>,
    /// Features provided by the crate, mapped to the features required by that feature.
    ///
    /// The order of this list is the order of the features of the package
    /// in the graph: it decides their indices, and with them the nodes of
    /// the feature graph. Where the source of the metadata gives the
    /// features in no order of its own, as a map by hashes does, the list
    /// is to be given in some fixed order, such as that of the names, so
    /// that the same metadata gives the same graph.
    pub features: Vec<(String, Vec<String>)>,
    /// Path containing the `Cargo.toml`.
    pub manifest_path: String,
    /// Categories as given in the `Cargo.toml`.
    pub categories: Vec<String>,
    /// Keywords as given in the `Cargo.toml`.
    pub keywords: Vec<String>,
    /// Readme as given in the `Cargo.toml`.
    pub readme: Option<String>,
    /// Repository as given in the `Cargo.toml`.
    pub repository: Option<String>,
    /// Default Rust edition for the package.
    pub edition: String,
    /// Contents of the free form `package.metadata` section, as JSON text.
    pub metadata: String,
    /// The name of a native library the package is linking to.
    pub links: Option<String>,
    /// List of registries to which this package may be published.
    pub publish: Option<Vec<String>>,
}

/// A dependency in a node of the resolved graph.
#[derive(Clone, Debug, PartialEq, Eq)]
pub struct NodeDep {
    /// The name of the dependency's library target, with `-` made `_`.
    pub name: String,
    /// Package ID (opaque unique identifier).
    pub pkg: PackageId,
    /// The kinds of dependencies that this stands for.
    pub dep_kinds: Vec<DependencyKind>,
}

/// A node in the resolved dependency graph.
#[derive(Clone, Debug, PartialEq, Eq)]
pub struct Node {
    /// An opaque identifier for a package.
    pub id: PackageId,
    /// Dependencies in a structured format.
    pub deps: Vec<NodeDep>,
    /// Features enabled on the crate.
    pub features: Vec<String>,
}

/// The resolved dependency graph.
#[derive(Clone, Debug, PartialEq, Eq)]
pub struct Resolve {
    /// Nodes in the dependency graph.
    pub nodes: Vec<Node>,
}

/// The metadata of a workspace.
#[derive(Clone, Debug, PartialEq, Eq)]
pub struct Metadata {
    /// A list of all crates referenced by this crate (and the crate itself).
    pub packages: Vec<Package>,
    /// A list of all workspace members.
    pub workspace_members: Vec<PackageId>,
    /// Dependencies graph.
    pub resolve: Option<Resolve>,
    /// Workspace root.
    pub workspace_root: String,
}

} // verus!
