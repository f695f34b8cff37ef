//! Evaluation of target specifications against a platform.

use crate::target_spec::parser::{parse_impl, target_of, ParseError};
use crate::target_spec::platform::{
    platform_of, Platform, PlatformView, TargetFeatures, TargetFeaturesView,
};
use crate::target_spec::types::{
    Atom, AtomView, Expr, ExprView, TargetEnum, TargetEnumView, TargetSpec,
};
use crate::text::str_eq;
use vstd::prelude::*;

verus! {

/// An error that occurred during target evaluation.
#[derive(Clone, Debug, PartialEq, Eq)]
pub enum EvalError {
    /// An invalid target was specified.
    InvalidSpec(ParseError),
    /// The target triple was not found in the database.
    TargetNotFound,
    /// The target family wasn't recognized.
    UnknownOption(String),
}

/// The model of an [`EvalError`].
pub enum EvalErrorView {
    /// The text that is no target specification.
    InvalidSpec(Seq<char>),
    TargetNotFound,
    /// The option that is not known.
    UnknownOption(Seq<char>),
}

impl View for EvalError {
    type V = EvalErrorView;

    open spec fn view(&self) -> EvalErrorView {
        match self {
            EvalError::InvalidSpec(e) => EvalErrorView::InvalidSpec(e.input@),
            EvalError::TargetNotFound => EvalErrorView::TargetNotFound,
            EvalError::UnknownOption(s) => EvalErrorView::UnknownOption(s@),
        }
    }
}

impl EvalError {
    /// The text of the message for this error.
    pub open spec fn message_text(&self) -> Seq<char> {
        match self@ {
            EvalErrorView::InvalidSpec(_) => "invalid target spec"@,
            EvalErrorView::TargetNotFound => "target triple not found in database"@,
            EvalErrorView::UnknownOption(opt) => "target family not recognized: "@ + opt,
        }
    }

    /// The error of the parser that this error comes from, if it comes
    /// from there.
    pub fn source(&self) -> (r: Option<&ParseError>)
        ensures
            match self {
                EvalError::InvalidSpec(err) => r == Some(err),
                _ => r is None,
            },
    {
        match self {
            EvalError::InvalidSpec(err) => Some(err),
            _ => None,
        }
    }

    /// A message for this error.
    pub fn message(&self) -> (r: String)
        ensures
            r@ == self.message_text(),
    {
        match self {
            EvalError::InvalidSpec(_) => "invalid target spec".to_owned(),
            EvalError::TargetNotFound => "target triple not found in database".to_owned(),
            EvalError::UnknownOption(opt) => {
                let mut s = "target family not recognized: ".to_owned();
                s.append(opt.as_str());
                s
            },
        }
    }
}

/// The model of the result of an evaluation.
pub open spec fn result_view(r: Result<bool, EvalError>) -> Result<bool, EvalErrorView> {
    match r {
        Ok(b) => Ok(b),
        Err(e) => Err(e@),
    }
}

impl AtomView {
    /// The text of an atom.
    pub open spec fn text(self) -> Seq<char> {
        match self {
            AtomView::Ident(s) => s,
            AtomView::Value(s) => s,
        }
    }
}

/// The value of a test on a lone identifier: `windows` and `unix` ask for
/// the platform's family, three names of the compiler's are never set, and
/// nothing else is known.
pub open spec fn eval_test_set(name: Seq<char>, p: PlatformView) -> Result<bool, EvalErrorView> {
    if name == "windows"@ {
        Ok(p.os == "windows"@)
    } else if name == "unix"@ {
        Ok(p.os == "linux"@ || p.os == "macos"@)
    } else if name == "test"@ || name == "debug_assertions"@ || name == "proc_macro"@ {
        Ok(false)
    } else {
        Err(EvalErrorView::UnknownOption(name))
    }
}

/// The value of a comparison of a key with a string.
pub open spec fn eval_test_equal(name: Seq<char>, value: Seq<char>, p: PlatformView) -> Result<
    bool,
    EvalErrorView,
> {
    if name == "target_os"@ {
        Ok(value == p.os)
    } else if name == "target_env"@ {
        Ok(value == p.env)
    } else if name == "target_arch"@ {
        Ok(value == p.arch)
    } else if name == "target_vendor"@ {
        Ok(value == "unknown"@)
    } else if name == "feature"@ {
        Ok(false)
    } else if name == "target_feature"@ {
        Ok(p.target_features.matches(value))
    } else {
        Err(EvalErrorView::UnknownOption(name))
    }
}

/// The value of an expression on a platform. `any` and `all` evaluate their
/// parts from the left and stop at the first that decides or fails.
pub open spec fn eval_expr_spec(e: ExprView, p: PlatformView) -> Result<bool, EvalErrorView>
    decreases e, 0int,
{
    match e {
        ExprView::Any(items) => eval_any(items, 0, p),
        ExprView::All(items) => eval_all(items, 0, p),
        ExprView::Not(inner) => match eval_expr_spec(*inner, p) {
            Ok(b) => Ok(!b),
            Err(x) => Err(x),
        },
        ExprView::TestSet(a) => eval_test_set(a.text(), p),
        ExprView::TestEqual(a, b) => eval_test_equal(a.text(), b.text(), p),
    }
}

/// The disjunction of the expressions from the `i`th on.
pub open spec fn eval_any(items: Seq<ExprView>, i: int, p: PlatformView) -> Result<
    bool,
    EvalErrorView,
>
    decreases items, items.len() - i,
{
    if i < 0 || i >= items.len() {
        Ok(false)
    } else {
        match eval_expr_spec(items[i], p) {
            Ok(true) => Ok(true),
            Ok(false) => eval_any(items, i + 1, p),
            Err(x) => Err(x),
        }
    }
}

/// The conjunction of the expressions from the `i`th on.
pub open spec fn eval_all(items: Seq<ExprView>, i: int, p: PlatformView) -> Result<
    bool,
    EvalErrorView,
>
    decreases items, items.len() - i,
{
    if i < 0 || i >= items.len() {
        Ok(true)
    } else {
        match eval_expr_spec(items[i], p) {
            Ok(true) => eval_all(items, i + 1, p),
            Ok(false) => Ok(false),
            Err(x) => Err(x),
        }
    }
}

/// The value of a target on a platform: a triple stands for the platform
/// of that name.
pub open spec fn eval_target_spec(t: TargetEnumView, p: PlatformView) -> Result<
    bool,
    EvalErrorView,
> {
    match t {
        TargetEnumView::Triple(triple) => Ok(p.triple == triple),
        TargetEnumView::Spec(e) => eval_expr_spec(e, p),
    }
}

/// The value of a specification, given as text, on the platform that a
/// triple names, with every target feature taken to be present.
pub open spec fn eval_spec(spec_or_triple: Seq<char>, platform: Seq<char>) -> Result<
    bool,
    EvalErrorView,
> {
    match target_of(spec_or_triple) {
        None => Err(EvalErrorView::InvalidSpec(spec_or_triple)),
        Some(t) => match platform_of(platform, TargetFeaturesView::All) {
            None => Err(EvalErrorView::TargetNotFound),
            Some(p) => eval_target_spec(t, p),
        },
    }
}

fn atom_text(a: &Atom) -> (r: &String)
    ensures
        r@ == a@.text(),
{
    match a {
        Atom::Ident(s) => s,
        Atom::Value(s) => s,
    }
}

fn eval_family(family: &String, platform: &Platform) -> (r: Result<bool, EvalError>)
    ensures
        result_view(r) == eval_test_set(family@, platform@),
{
    let name = family.as_str();
    if str_eq(name, "windows") {
        Ok(str_eq(platform.os(), "windows"))
    } else if str_eq(name, "unix") {
        Ok(str_eq(platform.os(), "linux") || str_eq(platform.os(), "macos"))
    } else if str_eq(name, "test") || str_eq(name, "debug_assertions") || str_eq(
        name,
        "proc_macro",
    ) {
        Ok(false)
    } else {
        Err(EvalError::UnknownOption(family.clone()))
    }
}

fn eval_key_value(name: &String, value: &String, platform: &Platform) -> (r: Result<
    bool,
    EvalError,
>)
    ensures
        result_view(r) == eval_test_equal(name@, value@, platform@),
{
    let key = name.as_str();
    let value = value.as_str();
    if str_eq(key, "target_os") {
        Ok(str_eq(value, platform.os()))
    } else if str_eq(key, "target_env") {
        Ok(str_eq(value, platform.env()))
    } else if str_eq(key, "target_arch") {
        Ok(str_eq(value, platform.arch()))
    } else if str_eq(key, "target_vendor") {
        Ok(str_eq(value, "unknown"))
    } else if str_eq(key, "feature") {
        Ok(false)
    } else if str_eq(key, "target_feature") {
        Ok(platform.target_features().matches(value))
    } else {
        Err(EvalError::UnknownOption(name.clone()))
    }
}

/// Evaluates an expression against a platform.
pub fn eval_expr(spec: &Expr, platform: &Platform) -> (r: Result<bool, EvalError>)
    ensures
        result_view(r) == eval_expr_spec(spec@, platform@),
    decreases spec,
{
    match spec {
        Expr::Any(exprs) => {
            let mut i: usize = 0;
            while i < exprs.len()
                invariant
                    i <= exprs.len(),
                    spec@ is Any,
                    spec@->Any_0.len() == exprs@.len(),
                    forall|k: int| 0 <= k < exprs@.len() ==> spec@->Any_0[k] == (#[trigger] exprs@[k])@,
                    forall|k: int| 0 <= k < exprs@.len() ==> decreases_to!(spec => exprs@[k]),
                    eval_any(spec@->Any_0, 0, platform@) == eval_any(
                        spec@->Any_0,
                        i as int,
                        platform@,
                    ),
                decreases exprs.len() - i,
            {
                match eval_expr(&exprs[i], platform) {
                    Ok(true) => {
                        return Ok(true);
                    },
                    Ok(false) => {},
                    Err(e) => {
                        return Err(e);
                    },
                }
                i = i + 1;
            }
            Ok(false)
        },
        Expr::All(exprs) => {
            let mut i: usize = 0;
            while i < exprs.len()
                invariant
                    i <= exprs.len(),
                    spec@ is All,
                    spec@->All_0.len() == exprs@.len(),
                    forall|k: int| 0 <= k < exprs@.len() ==> spec@->All_0[k] == (#[trigger] exprs@[k])@,
                    forall|k: int| 0 <= k < exprs@.len() ==> decreases_to!(spec => exprs@[k]),
                    eval_all(spec@->All_0, 0, platform@) == eval_all(
                        spec@->All_0,
                        i as int,
                        platform@,
                    ),
                decreases exprs.len() - i,
            {
                match eval_expr(&exprs[i], platform) {
                    Ok(true) => {},
                    Ok(false) => {
                        return Ok(false);
                    },
                    Err(e) => {
                        return Err(e);
                    },
                }
                i = i + 1;
            }
            Ok(true)
        },
        Expr::Not(expr) => match eval_expr(expr, platform) {
            Ok(b) => Ok(!b),
            Err(e) => Err(e),
        },
        Expr::TestSet(family) => eval_family(atom_text(family), platform),
        Expr::TestEqual(name, value) => eval_key_value(
            atom_text(name),
            atom_text(value),
            platform,
        ),
    }
}

/// Evaluates a parsed target against a platform.
pub fn eval_target(target: &TargetEnum, platform: &Platform) -> (r: Result<bool, EvalError>)
    ensures
        result_view(r) == eval_target_spec(target@, platform@),
{
    match target {
        TargetEnum::Triple(triple) => Ok(str_eq(platform.triple(), triple.as_str())),
        TargetEnum::Spec(expr) => eval_expr(expr, platform),
    }
}

/// Evaluates the given spec against the provided target and returns true on
/// a successful match.
///
/// This takes every target feature to be present. For more advanced use,
/// see `TargetSpec::eval`.
pub fn eval(spec_or_triple: &str, platform: &str) -> (r: Result<bool, EvalError>)
    ensures
        result_view(r) == eval_spec(spec_or_triple@, platform@),
{
    let target_spec = match TargetSpec::new(spec_or_triple) {
        Ok(spec) => spec,
        Err(e) => {
            return Err(EvalError::InvalidSpec(e));
        },
    };
    match Platform::new(platform, TargetFeatures::All) {
        None => Err(EvalError::TargetNotFound),
        Some(platform) => target_spec.eval(&platform),
    }
}

impl TargetSpec {
    /// Parses a target specification or triple.
    pub fn new(input: &str) -> (r: Result<TargetSpec, ParseError>)
        ensures
            match r {
                Ok(spec) => target_of(input@) == Some(spec@),
                Err(e) => target_of(input@) is None && e.input@ == input@,
            },
    {
        match parse_impl(input) {
            Ok(target) => Ok(TargetSpec::from_target(target)),
            Err(e) => Err(e),
        }
    }

    /// Evaluates this specification against the given platform.
    pub fn eval(&self, platform: &Platform) -> (r: Result<bool, EvalError>)
        ensures
            result_view(r) == eval_target_spec(self@, platform@),
    {
        eval_target(self.target(), platform)
    }
}

} // verus!
