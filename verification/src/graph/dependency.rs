//! What one package asks of another: the kinds of a dependency, and the
//! platforms on which each holds.

use crate::errors::{Error, ErrorView};
use crate::metadata::DependencyKind;
use crate::target_spec::evaluator::{eval_target_spec, result_view, EvalError, EvalErrorView};
use crate::target_spec::platform::{
    platform_of, Platform, PlatformView, TargetFeatures, TargetFeaturesView,
};
use crate::target_spec::types::{TargetEnumView, TargetSpec};
use vstd::prelude::*;

verus! {

/// Whether a dependency is included, or whether default features are
/// included, on a specific platform.
#[derive(Clone, Copy, Debug, PartialEq, Eq, Hash, Structural)]
pub enum DependencyStatus {
    /// This dependency or default features are always included in the build on this platform.
    Mandatory,
    /// This dependency or default features are optionally included in the build on this platform.
    Optional,
    /// This dependency or default features are never included in the build in this platform, even
    /// if the optional dependency is turned on.
    Never,
}

/// The platforms on which something holds: all of them, or those that one
/// of the given specifications accepts. Without specifications: none.
#[derive(Clone, Debug, PartialEq, Eq)]
pub enum TargetPredicate {
    Always,
    // Empty vector means never.
    Specs(Vec<TargetSpec>),
}

/// The model of a [`TargetPredicate`].
pub enum TargetPredicateView {
    Always,
    Specs(Seq<TargetEnumView>),
}

/// The models of a sequence of specifications.
pub open spec fn spec_views(v: Seq<TargetSpec>) -> Seq<TargetEnumView> {
    Seq::new(v.len(), |i: int| v[i]@)
}

impl View for TargetPredicate {
    type V = TargetPredicateView;

    open spec fn view(&self) -> TargetPredicateView {
        match self {
            TargetPredicate::Always => TargetPredicateView::Always,
            TargetPredicate::Specs(specs) => TargetPredicateView::Specs(spec_views(specs@)),
        }
    }
}

/// Whether one of the specifications from the `i`th on accepts the
/// platform. They are tried in order; the first that fails ends the
/// evaluation.
pub open spec fn any_spec_accepts(specs: Seq<TargetEnumView>, i: int, p: PlatformView) -> Result<
    bool,
    EvalErrorView,
>
    decreases specs.len() - i,
{
    if i < 0 || i >= specs.len() {
        Ok(false)
    } else {
        match eval_target_spec(specs[i], p) {
            Ok(true) => Ok(true),
            Ok(false) => any_spec_accepts(specs, i + 1, p),
            Err(e) => Err(e),
        }
    }
}

impl TargetPredicateView {
    /// Whether this predicate holds on no platform.
    pub open spec fn is_empty(self) -> bool {
        match self {
            TargetPredicateView::Always => false,
            TargetPredicateView::Specs(specs) => specs.len() == 0,
        }
    }

    /// Whether this predicate holds on the platform.
    pub open spec fn eval(self, p: PlatformView) -> Result<bool, EvalErrorView> {
        match self {
            TargetPredicateView::Always => Ok(true),
            TargetPredicateView::Specs(specs) => any_spec_accepts(specs, 0, p),
        }
    }

    /// Whether this predicate holds on a platform that may not be known.
    /// Only where a specification has to be evaluated does it matter that
    /// the platform is not known.
    pub open spec fn eval_opt(self, p: Option<PlatformView>) -> Result<bool, EvalErrorView> {
        match self {
            TargetPredicateView::Always => Ok(true),
            TargetPredicateView::Specs(specs) => if specs.len() == 0 {
                Ok(false)
            } else {
                match p {
                    Some(p) => any_spec_accepts(specs, 0, p),
                    None => Err(EvalErrorView::TargetNotFound),
                }
            },
        }
    }

    /// This predicate, widened by one more declaration: without a
    /// specification it holds everywhere.
    pub open spec fn add(self, spec: Option<TargetEnumView>) -> TargetPredicateView {
        match (self, spec) {
            (TargetPredicateView::Always, _) => TargetPredicateView::Always,
            (TargetPredicateView::Specs(_), None) => TargetPredicateView::Always,
            (TargetPredicateView::Specs(specs), Some(s)) => TargetPredicateView::Specs(
                specs.push(s),
            ),
        }
    }

    /// The predicate that holds nowhere.
    pub open spec fn never() -> TargetPredicateView {
        TargetPredicateView::Specs(Seq::empty())
    }
}

impl TargetPredicate {
    /// The predicate that holds nowhere.
    pub fn never() -> (r: TargetPredicate)
        ensures
            r@ == TargetPredicateView::never(),
    {
        let specs: Vec<TargetSpec> = Vec::new();
        assert(spec_views(specs@) =~= Seq::<TargetEnumView>::empty());
        TargetPredicate::Specs(specs)
    }

    /// Returns true if this is an empty predicate (i.e. will never match).
    pub fn is_empty(&self) -> (r: bool)
        ensures
            r == self@.is_empty(),
    {
        match self {
            TargetPredicate::Always => false,
            TargetPredicate::Specs(specs) => specs.len() == 0,
        }
    }

    /// Evaluates this predicate against the given platform.
    pub fn eval(&self, platform: &Platform) -> (r: Result<bool, EvalError>)
        ensures
            result_view(r) == self@.eval(platform@),
    {
        match self {
            TargetPredicate::Always => Ok(true),
            TargetPredicate::Specs(specs) => {
                let mut i: usize = 0;
                while i < specs.len()
                    invariant
                        i <= specs.len(),
                        self@ == TargetPredicateView::Specs(spec_views(specs@)),
                        any_spec_accepts(spec_views(specs@), 0, platform@) == any_spec_accepts(
                            spec_views(specs@),
                            i as int,
                            platform@,
                        ),
                    decreases specs.len() - i,
                {
                    match specs[i].eval(platform) {
                        Ok(true) => {
                            return Ok(true);
                        },
                        Ok(false) => {},
                        Err(e) => {
                            return Err(e);
                        },
                    }
                    i = i + 1;
                }
                Ok(false)
            },
        }
    }

    /// Evaluates this predicate against a platform that may not be known.
    pub fn eval_opt(&self, platform: &Option<Platform>) -> (r: Result<bool, EvalError>)
        ensures
            result_view(r) == self@.eval_opt(
                match platform {
                    Some(p) => Some(p@),
                    None => None,
                },
            ),
    {
        match self {
            TargetPredicate::Always => Ok(true),
            TargetPredicate::Specs(specs) => {
                if specs.len() == 0 {
                    Ok(false)
                } else {
                    match platform {
                        Some(p) => self.eval(p),
                        None => Err(EvalError::TargetNotFound),
                    }
                }
            },
        }
    }

    /// Widens this predicate by one more declaration.
    pub fn add_spec(&mut self, spec: Option<TargetSpec>)
        ensures
            final(self)@ == old(self)@.add(
                match spec {
                    Some(s) => Some(s@),
                    None => None,
                },
            ),
    {
        match spec {
            None => {
                *self = TargetPredicate::Always;
            },
            Some(s) => {
                match self {
                    TargetPredicate::Always => {},
                    TargetPredicate::Specs(specs) => {
                        let ghost before = specs@;
                        specs.push(s);
                        assert(spec_views(specs@) =~= spec_views(before).push(s@));
                    },
                }
            },
        }
    }

    /// A copy of this predicate.
    pub fn duplicate(&self) -> (r: TargetPredicate)
        ensures
            r@ == self@,
    {
        match self {
            TargetPredicate::Always => TargetPredicate::Always,
            TargetPredicate::Specs(specs) => {
                let mut copies: Vec<TargetSpec> = Vec::new();
                let mut i: usize = 0;
                while i < specs.len()
                    invariant
                        i <= specs.len(),
                        copies.len() == i,
                        forall|k: int| 0 <= k < i ==> (#[trigger] copies[k])@ == specs[k]@,
                    decreases specs.len() - i,
                {
                    copies.push(specs[i].duplicate());
                    i = i + 1;
                }
                assert(spec_views(copies@) =~= spec_views(specs@));
                TargetPredicate::Specs(copies)
            },
        }
    }
}

/// One half of the requirements of a dependency: what its mandatory
/// declarations ask for, or what its optional ones do.
#[derive(Clone, Debug, PartialEq, Eq)]
pub struct DependencyReqImpl {
    pub build_if: TargetPredicate,
    pub default_features_if: TargetPredicate,
    pub target_features: Vec<(Option<TargetSpec>, Vec<String>)>,
}

/// The model of a [`DependencyReqImpl`].
pub struct DependencyReqImplView {
    pub build_if: TargetPredicateView,
    pub default_features_if: TargetPredicateView,
    pub target_features: Seq<(Option<TargetEnumView>, Seq<Seq<char>>)>,
}

/// The model of a specification that may not be there.
pub open spec fn opt_spec_view(spec: Option<TargetSpec>) -> Option<TargetEnumView> {
    match spec {
        Some(s) => Some(s@),
        None => None,
    }
}

/// The models of a sequence of strings.
pub open spec fn strings_view(v: Seq<String>) -> Seq<Seq<char>> {
    Seq::new(v.len(), |i: int| v[i]@)
}

impl View for DependencyReqImpl {
    type V = DependencyReqImplView;

    open spec fn view(&self) -> DependencyReqImplView {
        DependencyReqImplView {
            build_if: self.build_if@,
            default_features_if: self.default_features_if@,
            target_features: Seq::new(
                self.target_features@.len(),
                |i: int|
                    (
                        opt_spec_view(self.target_features@[i].0),
                        strings_view(self.target_features@[i].1@),
                    ),
            ),
        }
    }
}

impl DependencyReqImplView {
    /// The half without declarations.
    pub open spec fn empty() -> DependencyReqImplView {
        DependencyReqImplView {
            build_if: TargetPredicateView::never(),
            default_features_if: TargetPredicateView::never(),
            target_features: Seq::empty(),
        }
    }

    /// This half with one more declaration: for the platforms of `target`
    /// the dependency is built, with its default features if the
    /// declaration uses them, and with the features that it lists.
    pub open spec fn add(
        self,
        target: Option<TargetEnumView>,
        uses_default_features: bool,
        features: Seq<Seq<char>>,
    ) -> DependencyReqImplView {
        DependencyReqImplView {
            build_if: self.build_if.add(target),
            default_features_if: if uses_default_features {
                self.default_features_if.add(target)
            } else {
                self.default_features_if
            },
            target_features: self.target_features.push((target, features)),
        }
    }
}

/// The features of the first `n` declarations, one declaration after the
/// other.
pub open spec fn features_of_declarations(
    declarations: Seq<(Option<TargetEnumView>, Seq<Seq<char>>)>,
    n: int,
) -> Seq<Seq<char>>
    decreases n,
{
    if n <= 0 {
        Seq::empty()
    } else {
        features_of_declarations(declarations, n - 1) + declarations[n - 1].1
    }
}

/// The models of a sequence of string slices.
pub open spec fn slices_view(v: Seq<&str>) -> Seq<Seq<char>> {
    Seq::new(v.len(), |i: int| v[i]@)
}

impl DependencyReqImpl {
    /// The features that the declarations of this half list, one
    /// declaration after the other.
    #[verifier::loop_isolation(false)]
    pub fn all_features(&self) -> (r: Vec<&str>)
        ensures
            slices_view(r@) == features_of_declarations(
                self@.target_features,
                self@.target_features.len() as int,
            ),
    {
        let ghost declarations = self@.target_features;
        let mut out: Vec<&str> = Vec::new();
        assert(slices_view(out@) =~= features_of_declarations(declarations, 0));
        let mut d: usize = 0;
        while d < self.target_features.len()
            invariant
                d <= self.target_features.len(),
                slices_view(out@) == features_of_declarations(declarations, d as int),
            decreases self.target_features.len() - d,
        {
            let features = &self.target_features[d].1;
            assert(declarations[d as int].1 == strings_view(features@));
            let ghost before = slices_view(out@);
            let mut f: usize = 0;
            while f < features.len()
                invariant
                    f <= features.len(),
                    slices_view(out@) == before + strings_view(features@).subrange(0, f as int),
                decreases features.len() - f,
            {
                let ghost inner = slices_view(out@);
                out.push(features[f].as_str());
                assert(slices_view(out@) =~= inner.push(features[f as int]@));
                assert(strings_view(features@).subrange(0, f + 1) =~= strings_view(
                    features@,
                ).subrange(0, f as int).push(features[f as int]@));
                assert(slices_view(out@) =~= before + strings_view(features@).subrange(0, f + 1));
                f = f + 1;
            }
            assert(strings_view(features@).subrange(0, features@.len() as int) =~= strings_view(
                features@,
            ));
            d = d + 1;
        }
        out
    }

    /// The half without declarations.
    pub fn empty() -> (r: DependencyReqImpl)
        ensures
            r@ == DependencyReqImplView::empty(),
    {
        let r = DependencyReqImpl {
            build_if: TargetPredicate::never(),
            default_features_if: TargetPredicate::never(),
            target_features: Vec::new(),
        };
        assert(r@.target_features =~= Seq::empty());
        r
    }

    /// Adds one declaration to this half.
    pub fn add_instance(
        &mut self,
        target: Option<TargetSpec>,
        uses_default_features: bool,
        features: Vec<String>,
    )
        ensures
            final(self)@ == old(self)@.add(
                opt_spec_view(target),
                uses_default_features,
                strings_view(features@),
            ),
    {
        let ghost before = self@;
        let for_build = match &target {
            Some(s) => Some(s.duplicate()),
            None => None,
        };
        self.build_if.add_spec(for_build);
        if uses_default_features {
            let for_default = match &target {
                Some(s) => Some(s.duplicate()),
                None => None,
            };
            self.default_features_if.add_spec(for_default);
        }
        self.target_features.push((target, features));
        assert(self@.target_features =~= before.target_features.push(
            (opt_spec_view(target), strings_view(features@)),
        ));
    }
}

/// Information about dependency requirements.
#[derive(Clone, Debug, PartialEq, Eq)]
pub struct DependencyReq {
    pub mandatory: DependencyReqImpl,
    pub optional: DependencyReqImpl,
}

/// The model of a [`DependencyReq`].
pub struct DependencyReqView {
    pub mandatory: DependencyReqImplView,
    pub optional: DependencyReqImplView,
}

impl View for DependencyReq {
    type V = DependencyReqView;

    open spec fn view(&self) -> DependencyReqView {
        DependencyReqView { mandatory: self.mandatory@, optional: self.optional@ }
    }
}

/// The two questions that are asked of a dependency on a platform.
#[derive(Clone, Copy, Debug, PartialEq, Eq, Structural)]
pub enum Question {
    /// Is the dependency built?
    Build,
    /// Are its default features built?
    DefaultFeatures,
}

impl DependencyReqImplView {
    /// The predicate that answers a question.
    pub open spec fn predicate(self, question: Question) -> TargetPredicateView {
        match question {
            Question::Build => self.build_if,
            Question::DefaultFeatures => self.default_features_if,
        }
    }
}

impl DependencyReqView {
    /// The answer to a question on a platform that may not be known:
    /// mandatory where the mandatory half holds, else optional where the
    /// optional half holds, else never.
    pub open spec fn status(self, question: Question, p: Option<PlatformView>) -> Result<
        DependencyStatus,
        EvalErrorView,
    > {
        match self.mandatory.predicate(question).eval_opt(p) {
            Err(e) => Err(e),
            Ok(true) => Ok(DependencyStatus::Mandatory),
            Ok(false) => match self.optional.predicate(question).eval_opt(p) {
                Err(e) => Err(e),
                Ok(true) => Ok(DependencyStatus::Optional),
                Ok(false) => Ok(DependencyStatus::Never),
            },
        }
    }

    /// The answer to a question on the platform of a triple, with every
    /// target feature taken to be present.
    pub open spec fn status_on(self, question: Question, triple: Seq<char>) -> Result<
        DependencyStatus,
        ErrorView,
    > {
        match self.status(question, platform_of(triple, TargetFeaturesView::All)) {
            Ok(s) => Ok(s),
            Err(e) => Err(ErrorView::TargetEvalError { platform: triple, err: e }),
        }
    }

    /// The answer to a question where no platform is to be asked: what holds
    /// on some platform is taken to hold.
    pub open spec fn status_anywhere(self, question: Question) -> DependencyStatus {
        if !self.mandatory.predicate(question).is_empty() {
            DependencyStatus::Mandatory
        } else if !self.optional.predicate(question).is_empty() {
            DependencyStatus::Optional
        } else {
            DependencyStatus::Never
        }
    }

    /// The answer to a question on the current platform, as it is kept with
    /// a dependency: where the platform is not known, or the evaluation
    /// fails on it, the answer that asks no platform.
    pub open spec fn status_current(self, question: Question, p: Option<PlatformView>) -> DependencyStatus {
        match p {
            None => self.status_anywhere(question),
            Some(_) => match self.status(question, p) {
                Ok(s) => s,
                Err(_) => self.status_anywhere(question),
            },
        }
    }
}

/// The model of a status that may be an error.
pub open spec fn status_view(r: Result<DependencyStatus, Error>) -> Result<
    DependencyStatus,
    ErrorView,
> {
    match r {
        Ok(s) => Ok(s),
        Err(e) => Err(e@),
    }
}

/// The model of a platform that may not be known.
pub open spec fn opt_platform_view(p: Option<Platform>) -> Option<PlatformView> {
    match p {
        Some(p) => Some(p@),
        None => None,
    }
}

impl DependencyReq {
    /// The requirements without declarations.
    pub fn empty() -> (r: DependencyReq)
        ensures
            r@.mandatory == DependencyReqImplView::empty(),
            r@.optional == DependencyReqImplView::empty(),
    {
        DependencyReq { mandatory: DependencyReqImpl::empty(), optional: DependencyReqImpl::empty() }
    }

    fn predicate<'a>(half: &'a DependencyReqImpl, question: Question) -> (r: &'a TargetPredicate)
        ensures
            r@ == half@.predicate(question),
    {
        match question {
            Question::Build => &half.build_if,
            Question::DefaultFeatures => &half.default_features_if,
        }
    }

    /// Answers a question on a platform that may not be known.
    pub fn status(&self, question: Question, platform: &Option<Platform>) -> (r: Result<
        DependencyStatus,
        EvalError,
    >)
        ensures
            match r {
                Ok(s) => self@.status(question, opt_platform_view(*platform)) == Ok::<
                    DependencyStatus,
                    EvalErrorView,
                >(s),
                Err(e) => self@.status(question, opt_platform_view(*platform)) == Err::<
                    DependencyStatus,
                    EvalErrorView,
                >(e@),
            },
    {
        match Self::predicate(&self.mandatory, question).eval_opt(platform) {
            Err(e) => Err(e),
            Ok(true) => Ok(DependencyStatus::Mandatory),
            Ok(false) => match Self::predicate(&self.optional, question).eval_opt(platform) {
                Err(e) => Err(e),
                Ok(true) => Ok(DependencyStatus::Optional),
                Ok(false) => Ok(DependencyStatus::Never),
            },
        }
    }

    fn status_on(&self, question: Question, platform: &str) -> (r: Result<DependencyStatus, Error>)
        ensures
            status_view(r) == self@.status_on(question, platform@),
    {
        let found = Platform::new(platform, TargetFeatures::All);
        match self.status(question, &found) {
            Ok(s) => Ok(s),
            Err(e) => Err(Error::TargetEvalError { platform: platform.to_owned(), err: e }),
        }
    }

    /// Returns the status of this dependency on the given platform (target triple).
    pub fn build_status_on(&self, platform: &str) -> (r: Result<DependencyStatus, Error>)
        ensures
            status_view(r) == self@.status_on(Question::Build, platform@),
    {
        self.status_on(Question::Build, platform)
    }

    /// Returns the status of the default features of this dependency on the
    /// given platform (target triple).
    pub fn default_features_on(&self, platform: &str) -> (r: Result<DependencyStatus, Error>)
        ensures
            status_view(r) == self@.status_on(Question::DefaultFeatures, platform@),
    {
        self.status_on(Question::DefaultFeatures, platform)
    }

    /// Answers a question where no platform is to be asked.
    pub fn status_anywhere(&self, question: Question) -> (r: DependencyStatus)
        ensures
            r == self@.status_anywhere(question),
    {
        if !Self::predicate(&self.mandatory, question).is_empty() {
            DependencyStatus::Mandatory
        } else if !Self::predicate(&self.optional, question).is_empty() {
            DependencyStatus::Optional
        } else {
            DependencyStatus::Never
        }
    }

    /// Answers a question on the current platform, as the answer is kept
    /// with a dependency.
    pub fn status_current(&self, question: Question, platform: &Option<Platform>) -> (r:
        DependencyStatus)
        ensures
            r == self@.status_current(question, opt_platform_view(*platform)),
    {
        match platform {
            None => self.status_anywhere(question),
            Some(_) => match self.status(question, platform) {
                Ok(s) => s,
                Err(_) => self.status_anywhere(question),
            },
        }
    }
}

/// Information about a specific kind of dependency (normal, build or dev)
/// from a package to another package.
#[derive(Clone, Debug, PartialEq, Eq)]
pub struct DependencyMetadata {
    pub version_req: String,
    pub dependency_req: DependencyReq,
    // Results of some queries as evaluated on the current platform.
    pub current_status: DependencyStatus,
    pub current_default_features: DependencyStatus,
    pub all_features: Vec<String>,
    // Only there if there's exactly one instance of this dependency.
    pub single_target: Option<String>,
}

/// The model of a [`DependencyMetadata`].
pub struct DependencyMetadataView {
    pub version_req: Seq<char>,
    pub dependency_req: DependencyReqView,
    pub current_status: DependencyStatus,
    pub current_default_features: DependencyStatus,
    pub all_features: Seq<Seq<char>>,
    pub single_target: Option<Seq<char>>,
}

/// The model of a string that may not be there.
pub open spec fn opt_string_view(s: Option<String>) -> Option<Seq<char>> {
    match s {
        Some(s) => Some(s@),
        None => None,
    }
}

impl View for DependencyMetadata {
    type V = DependencyMetadataView;

    open spec fn view(&self) -> DependencyMetadataView {
        DependencyMetadataView {
            version_req: self.version_req@,
            dependency_req: self.dependency_req@,
            current_status: self.current_status,
            current_default_features: self.current_default_features,
            all_features: strings_view(self.all_features@),
            single_target: opt_string_view(self.single_target),
        }
    }
}

impl DependencyMetadata {
    /// Returns the semver requirements specified for this dependency.
    pub fn version_req(&self) -> (r: &str)
        ensures
            r@ == self@.version_req,
    {
        self.version_req.as_str()
    }

    /// The requirements of this dependency, by platform.
    pub fn dependency_req(&self) -> (r: &DependencyReq)
        ensures
            r@ == self@.dependency_req,
    {
        &self.dependency_req
    }

    /// Returns true if this is an optional dependency on the current platform.
    ///
    /// This will also return true if this dependency will never be included on this platform at
    /// all. To get finer-grained information, use the `build_status` method instead.
    pub fn optional(&self) -> (r: bool)
        ensures
            r == (self@.current_status != DependencyStatus::Mandatory),
    {
        self.current_status != DependencyStatus::Mandatory
    }

    /// Returns the build status of this dependency on the current platform.
    pub fn build_status(&self) -> (r: DependencyStatus)
        ensures
            r == self@.current_status,
    {
        self.current_status
    }

    /// Returns the status of this dependency on the given platform (target triple).
    ///
    /// Returns an error if the triple wasn't recognized or if an error happened during evaluation.
    pub fn build_status_on(&self, platform: &str) -> (r: Result<DependencyStatus, Error>)
        ensures
            status_view(r) == self@.dependency_req.status_on(Question::Build, platform@),
    {
        self.dependency_req.build_status_on(platform)
    }

    /// Returns true if the default features of this dependency are enabled on the current
    /// platform.
    pub fn uses_default_features(&self) -> (r: bool)
        ensures
            r == (self@.current_default_features != DependencyStatus::Never),
    {
        self.current_default_features != DependencyStatus::Never
    }

    /// Returns the status of default features on the current platform.
    pub fn default_features(&self) -> (r: DependencyStatus)
        ensures
            r == self@.current_default_features,
    {
        self.current_default_features
    }

    /// Returns the status of default features of this dependency on the given platform (target
    /// triple).
    ///
    /// Returns an error if the triple wasn't recognized or if an error happened during evaluation.
    pub fn default_features_on(&self, platform: &str) -> (r: Result<DependencyStatus, Error>)
        ensures
            status_view(r) == self@.dependency_req.status_on(Question::DefaultFeatures, platform@),
    {
        self.dependency_req.default_features_on(platform)
    }

    /// Returns a list of every feature enabled by this dependency. This includes features that
    /// are only turned on if the dependency is optional.
    pub fn features(&self) -> (r: &Vec<String>)
        ensures
            strings_view(r@) == self@.all_features,
    {
        &self.all_features
    }

    /// Returns the target string for this dependency, if specified. This is a string like
    /// `cfg(target_arch = "x86_64")`.
    ///
    /// This will return `None` if this dependency is specified for more than one target
    /// (including unconditionally, as e.g. `[dependencies]`).
    pub fn target(&self) -> (r: Option<&str>)
        ensures
            match r {
                Some(t) => self@.single_target == Some(t@),
                None => self@.single_target is None,
            },
    {
        match &self.single_target {
            Some(t) => Some(t.as_str()),
            None => None,
        }
    }
}

/// Details about a specific dependency from a package to another package.
#[derive(Clone, Debug, PartialEq, Eq)]
pub struct DependencyEdge {
    pub dep_name: String,
    pub resolved_name: String,
    pub normal: Option<DependencyMetadata>,
    pub build: Option<DependencyMetadata>,
    pub dev: Option<DependencyMetadata>,
}

/// The model of a [`DependencyEdge`].
pub struct DependencyEdgeView {
    pub dep_name: Seq<char>,
    pub resolved_name: Seq<char>,
    pub normal: Option<DependencyMetadataView>,
    pub build: Option<DependencyMetadataView>,
    pub dev: Option<DependencyMetadataView>,
}

/// The model of details that may not be there.
pub open spec fn opt_metadata_view(m: Option<DependencyMetadata>) -> Option<
    DependencyMetadataView,
> {
    match m {
        Some(m) => Some(m@),
        None => None,
    }
}

impl DependencyEdgeView {
    /// The details of the given kind.
    pub open spec fn metadata_for_kind(self, kind: DependencyKind) -> Option<
        DependencyMetadataView,
    > {
        match kind {
            DependencyKind::Normal => self.normal,
            DependencyKind::Development => self.dev,
            DependencyKind::Build => self.build,
        }
    }

    /// Whether this edge is there for tests alone.
    pub open spec fn dev_only(self) -> bool {
        self.normal is None && self.build is None
    }

    /// Whether this edge has details of some kind.
    pub open spec fn has_kind(self) -> bool {
        self.normal is Some || self.build is Some || self.dev is Some
    }
}

impl View for DependencyEdge {
    type V = DependencyEdgeView;

    open spec fn view(&self) -> DependencyEdgeView {
        DependencyEdgeView {
            dep_name: self.dep_name@,
            resolved_name: self.resolved_name@,
            normal: opt_metadata_view(self.normal),
            build: opt_metadata_view(self.build),
            dev: opt_metadata_view(self.dev),
        }
    }
}

impl DependencyEdge {
    /// Returns the name for this dependency edge. This can be affected by a crate rename.
    pub fn dep_name(&self) -> (r: &str)
        ensures
            r@ == self@.dep_name,
    {
        self.dep_name.as_str()
    }

    /// Returns the resolved name for this dependency edge. This may involve renaming the crate and
    /// replacing - with _.
    pub fn resolved_name(&self) -> (r: &str)
        ensures
            r@ == self@.resolved_name,
    {
        self.resolved_name.as_str()
    }

    /// Returns details about this dependency from the `[dependencies]` section, if they exist.
    pub fn normal(&self) -> (r: Option<&DependencyMetadata>)
        ensures
            match r {
                Some(m) => self@.normal == Some(m@),
                None => self@.normal is None,
            },
    {
        self.normal.as_ref()
    }

    /// Returns details about this dependency from the `[build-dependencies]` section, if they exist.
    pub fn build(&self) -> (r: Option<&DependencyMetadata>)
        ensures
            match r {
                Some(m) => self@.build == Some(m@),
                None => self@.build is None,
            },
    {
        self.build.as_ref()
    }

    /// Returns details about this dependency from the `[dev-dependencies]` section, if they exist.
    pub fn dev(&self) -> (r: Option<&DependencyMetadata>)
        ensures
            match r {
                Some(m) => self@.dev == Some(m@),
                None => self@.dev is None,
            },
    {
        self.dev.as_ref()
    }

    /// Returns details about this dependency from the section specified by the given dependency
    /// kind.
    pub fn metadata_for_kind(&self, kind: DependencyKind) -> (r: Option<&DependencyMetadata>)
        ensures
            match r {
                Some(m) => self@.metadata_for_kind(kind) == Some(m@),
                None => self@.metadata_for_kind(kind) is None,
            },
    {
        match kind {
            DependencyKind::Normal => self.normal(),
            DependencyKind::Development => self.dev(),
            DependencyKind::Build => self.build(),
        }
    }

    /// Return true if this edge is dev-only, i.e. code from this edge will not be included in
    /// normal builds.
    pub fn dev_only(&self) -> (r: bool)
        ensures
            r == self@.dev_only(),
    {
        self.normal.is_none() && self.build.is_none()
    }
}

} // verus!
