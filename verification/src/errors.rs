//! Contains types that describe errors and warnings that the methods of this
//! crate can return.

use crate::metadata::PackageId;
use crate::target_spec::evaluator::{EvalError, EvalErrorView};
use vstd::prelude::*;

verus! {

/// Error type describing the sorts of errors this crate can return.
#[derive(Clone, Debug, PartialEq, Eq)]
#[non_exhaustive]
pub enum Error {
    /// An error occurred while executing `cargo metadata`.
    CommandError(String),
    /// An error occurred while parsing cargo metadata JSON.
    MetadataParseError(String),
    /// An error occurred while constructing a `PackageGraph` from parsed metadata.
    PackageGraphConstructError(String),
    /// A package ID was unknown to this `PackageGraph`.
    UnknownPackageId(PackageId),
    /// A feature ID was unknown to this `FeatureGraph`.
    UnknownFeatureId(PackageId, Option<String>),
    /// The platform this crate is running on is unknown.
    UnknownCurrentPlatform,
    /// An error occurred while evaluating a target specification against the given platform.
    TargetEvalError {
        /// The given platform.
        platform: String,
        /// The error that occurred while evaluating the target specification.
        err: EvalError,
    },
    /// An internal error occurred within this `PackageGraph`.
    PackageGraphInternalError(String),
}

/// The model of an [`Error`]: its kind, and what it is about. The text of
/// a message is left out.
pub enum ErrorView {
    CommandError,
    MetadataParseError,
    PackageGraphConstructError,
    UnknownPackageId(Seq<char>),
    UnknownFeatureId(Seq<char>, Option<Seq<char>>),
    UnknownCurrentPlatform,
    TargetEvalError { platform: Seq<char>, err: EvalErrorView },
    PackageGraphInternalError,
}

impl View for Error {
    type V = ErrorView;

    open spec fn view(&self) -> ErrorView {
        match self {
            Error::CommandError(_) => ErrorView::CommandError,
            Error::MetadataParseError(_) => ErrorView::MetadataParseError,
            Error::PackageGraphConstructError(_) => ErrorView::PackageGraphConstructError,
            Error::UnknownPackageId(id) => ErrorView::UnknownPackageId(id@),
            Error::UnknownFeatureId(id, feature) => ErrorView::UnknownFeatureId(
                id@,
                match feature {
                    Some(f) => Some(f@),
                    None => None,
                },
            ),
            Error::UnknownCurrentPlatform => ErrorView::UnknownCurrentPlatform,
            Error::TargetEvalError { platform, err } => ErrorView::TargetEvalError {
                platform: platform@,
                err: err@,
            },
            Error::PackageGraphInternalError(_) => ErrorView::PackageGraphInternalError,
        }
    }
}

/// `a`, then `b`.
pub(crate) fn join2(a: &str, b: &str) -> (r: String)
    ensures
        r@ == a@ + b@,
{
    let mut s = a.to_owned();
    s.append(b);
    s
}

/// `a`, then `b`, then `c`, then `d`.
pub(crate) fn join4(a: &str, b: &str, c: &str, d: &str) -> (r: String)
    ensures
        r@ == a@ + b@ + c@ + d@,
{
    let mut s = a.to_owned();
    s.append(b);
    s.append(c);
    s.append(d);
    s
}

impl Error {
    /// The text of the message for this error.
    pub open spec fn message_text(&self) -> Seq<char> {
        match self {
            Error::CommandError(err) => "Error while executing 'cargo metadata': "@ + err@,
            Error::MetadataParseError(err) => "Error while parsing 'cargo metadata' JSON output: "@
                + err@,
            Error::PackageGraphConstructError(msg) => "Error while computing package graph: "@
                + msg@,
            Error::UnknownPackageId(id) => "Unknown package ID: "@ + id@,
            Error::UnknownFeatureId(package_id, feature) => match feature {
                Some(feature) => "Unknown feature ID: '"@ + package_id@ + "' '"@ + feature@ + "'"@,
                None => "Unknown feature ID: '"@ + package_id@ + "' (base)"@,
            },
            Error::UnknownCurrentPlatform => "Unknown current platform"@,
            Error::TargetEvalError { platform, err } =>
                "Error while evaluating target specifications against platform '"@ + platform@
                    + "': "@ + err.message_text(),
            Error::PackageGraphInternalError(msg) => "Internal error in package graph: "@ + msg@,
        }
    }

    /// A message for this error.
    pub fn message(&self) -> (r: String)
        ensures
            r@ == self.message_text(),
    {
        match self {
            Error::CommandError(err) => join2(
                "Error while executing 'cargo metadata': ",
                err.as_str(),
            ),
            Error::MetadataParseError(err) => join2(
                "Error while parsing 'cargo metadata' JSON output: ",
                err.as_str(),
            ),
            Error::PackageGraphConstructError(msg) => join2(
                "Error while computing package graph: ",
                msg.as_str(),
            ),
            Error::UnknownPackageId(id) => join2("Unknown package ID: ", id.repr.as_str()),
            Error::UnknownFeatureId(package_id, feature) => match feature {
                Some(feature) => {
                    let head = join4(
                        "Unknown feature ID: '",
                        package_id.repr.as_str(),
                        "' '",
                        feature.as_str(),
                    );
                    join2(head.as_str(), "'")
                },
                None => join2(
                    join2("Unknown feature ID: '", package_id.repr.as_str()).as_str(),
                    "' (base)",
                ),
            },
            Error::UnknownCurrentPlatform => "Unknown current platform".to_owned(),
            Error::TargetEvalError { platform, err } => join4(
                "Error while evaluating target specifications against platform '",
                platform.as_str(),
                "': ",
                err.message().as_str(),
            ),
            Error::PackageGraphInternalError(msg) => join2(
                "Internal error in package graph: ",
                msg.as_str(),
            ),
        }
    }

    /// The error that this error comes from, if it comes from the
    /// evaluation of a target specification.
    pub fn source(&self) -> (r: Option<&EvalError>)
        ensures
            match self {
                Error::TargetEvalError { platform, err } => r == Some(err),
                _ => r is None,
            },
    {
        match self {
            Error::TargetEvalError { platform, err } => Some(err),
            _ => None,
        }
    }
}

/// Describes the stage of construction at which a feature graph warning occurred.
#[derive(Clone, Debug, PartialEq, Eq)]
#[non_exhaustive]
pub enum FeatureBuildStage {
    /// The warning occurred while adding edges for the `[features]` section of `Cargo.toml`.
    AddNamedFeatureEdges {
        /// The package ID for which edges were being added.
        package_id: PackageId,
        /// The feature name from which edges were being added.
        from_feature: String,
    },
    /// The warning occurred while adding dependency edges.
    AddDependencyEdges {
        /// The package ID for which edges were being added.
        package_id: PackageId,
        /// The name of the dependency.
        dep_name: String,
    },
}

/// The model of a [`FeatureBuildStage`].
pub enum FeatureBuildStageView {
    AddNamedFeatureEdges { package_id: Seq<char>, from_feature: Seq<char> },
    AddDependencyEdges { package_id: Seq<char>, dep_name: Seq<char> },
}

impl View for FeatureBuildStage {
    type V = FeatureBuildStageView;

    open spec fn view(&self) -> FeatureBuildStageView {
        match self {
            FeatureBuildStage::AddNamedFeatureEdges { package_id, from_feature } =>
                FeatureBuildStageView::AddNamedFeatureEdges {
                package_id: package_id@,
                from_feature: from_feature@,
            },
            FeatureBuildStage::AddDependencyEdges { package_id, dep_name } =>
                FeatureBuildStageView::AddDependencyEdges {
                package_id: package_id@,
                dep_name: dep_name@,
            },
        }
    }
}

impl FeatureBuildStage {
    /// A message for this stage.
    pub fn message(&self) -> (r: String)
        ensures
            r@ == match self@ {
                FeatureBuildStageView::AddNamedFeatureEdges { package_id, from_feature } =>
                    "for package '"@ + package_id + "', while adding named feature edges from '"@
                        + from_feature + "'"@,
                FeatureBuildStageView::AddDependencyEdges { package_id, dep_name } =>
                    "for package '"@ + package_id + "', while adding edges for dependency '"@
                        + dep_name + "'"@,
            },
    {
        match self {
            FeatureBuildStage::AddNamedFeatureEdges { package_id, from_feature } => {
                let head = join4(
                    "for package '",
                    package_id.repr.as_str(),
                    "', while adding named feature edges from '",
                    from_feature.as_str(),
                );
                join2(head.as_str(), "'")
            },
            FeatureBuildStage::AddDependencyEdges { package_id, dep_name } => {
                let head = join4(
                    "for package '",
                    package_id.repr.as_str(),
                    "', while adding edges for dependency '",
                    dep_name.as_str(),
                );
                join2(head.as_str(), "'")
            },
        }
    }
}

/// Describes warnings emitted during feature graph construction.
#[derive(Clone, Debug, PartialEq, Eq)]
#[non_exhaustive]
pub enum FeatureGraphWarning {
    /// A feature that was requested is missing from a package.
    MissingFeature {
        /// The stage of building the feature graph where the warning occurred.
        stage: FeatureBuildStage,
        /// The package ID for which the feature was requested.
        package_id: PackageId,
        /// The name of the feature.
        feature_name: String,
    },
}

/// The model of a [`FeatureGraphWarning`].
pub enum FeatureGraphWarningView {
    MissingFeature { stage: FeatureBuildStageView, package_id: Seq<char>, feature_name: Seq<char> },
}

impl View for FeatureGraphWarning {
    type V = FeatureGraphWarningView;

    open spec fn view(&self) -> FeatureGraphWarningView {
        match self {
            FeatureGraphWarning::MissingFeature { stage, package_id, feature_name } =>
                FeatureGraphWarningView::MissingFeature {
                stage: stage@,
                package_id: package_id@,
                feature_name: feature_name@,
            },
        }
    }
}

impl FeatureGraphWarning {
    /// A message for this warning.
    pub fn message(&self) -> (r: String)
        ensures
            r@ == match self {
                FeatureGraphWarning::MissingFeature { stage, package_id, feature_name } =>
                    stage.message_text() + ": for package '"@ + package_id@
                        + "', missing feature '"@ + feature_name@ + "'"@,
            },
    {
        match self {
            FeatureGraphWarning::MissingFeature { stage, package_id, feature_name } => {
                let head = join4(
                    stage.message().as_str(),
                    ": for package '",
                    package_id.repr.as_str(),
                    "', missing feature '",
                );
                join2(join2(head.as_str(), feature_name.as_str()).as_str(), "'")
            },
        }
    }
}

impl FeatureBuildStage {
    /// The text of the message for this stage.
    pub open spec fn message_text(&self) -> Seq<char> {
        match self@ {
            FeatureBuildStageView::AddNamedFeatureEdges { package_id, from_feature } =>
                "for package '"@ + package_id + "', while adding named feature edges from '"@
                    + from_feature + "'"@,
            FeatureBuildStageView::AddDependencyEdges { package_id, dep_name } => "for package '"@
                + package_id + "', while adding edges for dependency '"@ + dep_name + "'"@,
        }
    }
}

} // verus!
