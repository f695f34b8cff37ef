//! The syntax tree of a target specification and its mathematical model.

use vstd::prelude::*;

verus! {

/// A leaf of an expression: an identifier or a quoted value.
#[derive(Clone, Debug, PartialEq, Eq)]
pub enum Atom {
    Ident(String),
    Value(String),
}

/// The model of an [`Atom`].
pub enum AtomView {
    Ident(Seq<char>),
    Value(Seq<char>),
}

impl View for Atom {
    type V = AtomView;

    open spec fn view(&self) -> AtomView {
        match self {
            Atom::Ident(s) => AtomView::Ident(s@),
            Atom::Value(s) => AtomView::Value(s@),
        }
    }
}

/// A boolean expression over platform attributes.
#[derive(Debug, PartialEq, Eq)]
pub enum Expr {
    Any(Vec<Expr>),
    All(Vec<Expr>),
    Not(Box<Expr>),
    TestSet(Atom),
    TestEqual(Atom, Atom),
}

/// The model of an [`Expr`].
pub enum ExprView {
    Any(Seq<ExprView>),
    All(Seq<ExprView>),
    Not(Box<ExprView>),
    TestSet(AtomView),
    TestEqual(AtomView, AtomView),
}

impl ExprView {
    /// Whether every test of the expression is on an identifier, and every
    /// comparison is of an identifier with a value.
    pub open spec fn well_formed(self) -> bool
        decreases self,
    {
        match self {
            ExprView::Any(items) => forall|k: int|
                0 <= k < items.len() ==> (#[trigger] items[k]).well_formed(),
            ExprView::All(items) => forall|k: int|
                0 <= k < items.len() ==> (#[trigger] items[k]).well_formed(),
            ExprView::Not(e) => e.well_formed(),
            ExprView::TestSet(a) => a is Ident,
            ExprView::TestEqual(a, b) => a is Ident && b is Value,
        }
    }
}

impl TargetEnumView {
    pub open spec fn well_formed(self) -> bool {
        match self {
            TargetEnumView::Triple(_) => true,
            TargetEnumView::Spec(e) => e.well_formed(),
        }
    }
}

/// The model of an expression: the same tree over sequences.
pub open spec fn expr_view(e: Expr) -> ExprView
    decreases e,
{
    match e {
        Expr::Any(v) => ExprView::Any(
            Seq::new(
                v@.len(),
                |i: int|
                    if 0 <= i < v@.len() {
                        expr_view(v@[i])
                    } else {
                        arbitrary()
                    },
            ),
        ),
        Expr::All(v) => ExprView::All(
            Seq::new(
                v@.len(),
                |i: int|
                    if 0 <= i < v@.len() {
                        expr_view(v@[i])
                    } else {
                        arbitrary()
                    },
            ),
        ),
        Expr::Not(e) => ExprView::Not(Box::new(expr_view(*e))),
        Expr::TestSet(a) => ExprView::TestSet(a@),
        Expr::TestEqual(a, b) => ExprView::TestEqual(a@, b@),
    }
}

impl View for Expr {
    type V = ExprView;

    open spec fn view(&self) -> ExprView {
        expr_view(*self)
    }
}

/// A copy of an atom.
pub fn clone_atom(a: &Atom) -> (r: Atom)
    ensures
        r@ == a@,
{
    match a {
        Atom::Ident(s) => Atom::Ident(s.clone()),
        Atom::Value(s) => Atom::Value(s.clone()),
    }
}

/// A copy of an expression.
pub fn clone_expr(e: &Expr) -> (r: Expr)
    ensures
        r@ == e@,
    decreases e,
{
    match e {
        Expr::Any(items) => {
            let copies = clone_exprs(items);
            let r = Expr::Any(copies);
            assert(r@->Any_0 =~= e@->Any_0);
            r
        },
        Expr::All(items) => {
            let copies = clone_exprs(items);
            let r = Expr::All(copies);
            assert(r@->All_0 =~= e@->All_0);
            r
        },
        Expr::Not(inner) => Expr::Not(Box::new(clone_expr(inner))),
        Expr::TestSet(a) => Expr::TestSet(clone_atom(a)),
        Expr::TestEqual(a, b) => Expr::TestEqual(clone_atom(a), clone_atom(b)),
    }
}

/// Copies of the expressions of a list.
pub fn clone_exprs(items: &Vec<Expr>) -> (r: Vec<Expr>)
    ensures
        r.len() == items.len(),
        forall|k: int| 0 <= k < items.len() ==> (#[trigger] r[k])@ == items[k]@,
    decreases items,
{
    let mut copies: Vec<Expr> = Vec::new();
    let mut i: usize = 0;
    while i < items.len()
        invariant
            i <= items.len(),
            copies.len() == i,
            forall|k: int| 0 <= k < i ==> (#[trigger] copies[k])@ == items[k]@,
        decreases items.len() - i,
    {
        copies.push(clone_expr(&items[i]));
        i = i + 1;
    }
    copies
}

impl Clone for Expr {
    fn clone(&self) -> (r: Self)
        ensures
            r@ == self@,
    {
        clone_expr(self)
    }
}

/// A parsed target: a bare triple or a `cfg` expression.
#[derive(Clone, Debug, PartialEq, Eq)]
pub enum TargetEnum {
    Triple(String),
    Spec(Expr),
}

/// The model of a [`TargetEnum`].
pub enum TargetEnumView {
    Triple(Seq<char>),
    Spec(ExprView),
}

impl View for TargetEnum {
    type V = TargetEnumView;

    open spec fn view(&self) -> TargetEnumView {
        match self {
            TargetEnum::Triple(t) => TargetEnumView::Triple(t@),
            TargetEnum::Spec(e) => TargetEnumView::Spec(e@),
        }
    }
}

/// A parsed target specification or triple, as found in a `Cargo.toml` file.
#[derive(Clone, Debug, PartialEq, Eq)]
pub struct TargetSpec {
    target: TargetEnum,
}

impl View for TargetSpec {
    type V = TargetEnumView;

    closed spec fn view(&self) -> TargetEnumView {
        self.target@
    }
}

impl TargetSpec {
    /// Wraps a parsed target.
    pub fn from_target(target: TargetEnum) -> (r: TargetSpec)
        ensures
            r@ == target@,
    {
        TargetSpec { target }
    }

    /// A copy of this specification.
    pub fn duplicate(&self) -> (r: TargetSpec)
        ensures
            r@ == self@,
    {
        match &self.target {
            TargetEnum::Triple(t) => TargetSpec { target: TargetEnum::Triple(t.clone()) },
            TargetEnum::Spec(e) => TargetSpec { target: TargetEnum::Spec(clone_expr(e)) },
        }
    }

    /// The parsed target.
    pub fn target(&self) -> (r: &TargetEnum)
        ensures
            r@ == self@,
    {
        &self.target
    }
}

} // verus!

verus! {

impl std::str::FromStr for TargetSpec {
    type Err = crate::target_spec::parser::ParseError;

    /// Parses a target specification or triple, as [`TargetSpec::new`]
    /// does.
    fn from_str(input: &str) -> (r: Result<Self, Self::Err>)
        ensures
            match r {
                Ok(spec) => crate::target_spec::parser::target_of(input@) == Some(spec@),
                Err(e) => crate::target_spec::parser::target_of(input@) is None && e.input@
                    == input@,
            },
    {
        TargetSpec::new(input)
    }
}

} // verus!
