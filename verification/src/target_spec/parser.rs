//! The grammar of target specifications and a parser for it.
//!
//! A target specification is either `cfg(` expression `)` or a bare target
//! triple. The grammar is stated as functions on a sequence of characters
//! and a position; the parser is proved to compute exactly those functions.

use crate::target_spec::types::{Atom, AtomView, Expr, ExprView, TargetEnum, TargetEnumView};
use crate::text::{chars_of, string_of_range};
use vstd::prelude::*;

verus! {

/// An error that occurred while parsing a target specification.
#[derive(Clone, Debug, PartialEq, Eq)]
pub struct ParseError {
    /// The text that is no target specification.
    pub input: String,
}

impl ParseError {
    /// A message for this error.
    pub fn message(&self) -> (r: String)
        ensures
            r@ == "target spec parsing failed"@,
    {
        "target spec parsing failed".to_owned()
    }
}

/// The classes of characters that the grammar reads in runs.
#[derive(Clone, Copy, Debug, PartialEq, Eq)]
pub enum CharClass {
    /// A blank or a tab.
    Space,
    /// A letter, a digit or `_`.
    Ident,
    /// A letter, a digit, `_` or `-`.
    Triple,
}

pub open spec fn is_alpha(c: char) -> bool {
    ('a' <= c && c <= 'z') || ('A' <= c && c <= 'Z')
}

pub open spec fn is_digit(c: char) -> bool {
    '0' <= c && c <= '9'
}

pub open spec fn is_ident_start(c: char) -> bool {
    is_alpha(c) || c == '_'
}

pub open spec fn in_class(c: char, class: CharClass) -> bool {
    match class {
        CharClass::Space => c == ' ' || c == '\t',
        CharClass::Ident => is_alpha(c) || is_digit(c) || c == '_',
        CharClass::Triple => is_alpha(c) || is_digit(c) || c == '_' || c == '-',
    }
}

/// The end of the longest run of characters of `class` that starts at `i`.
pub open spec fn run_end(s: Seq<char>, i: int, class: CharClass) -> int
    decreases s.len() - i,
{
    if 0 <= i < s.len() && in_class(s[i], class) {
        run_end(s, i + 1, class)
    } else {
        i
    }
}

/// Whether the character at `i` is `c`.
pub open spec fn at(s: Seq<char>, i: int, c: char) -> bool {
    0 <= i < s.len() && s[i] == c
}

/// Whether a three-letter keyword and an opening parenthesis stand at `i`.
pub open spec fn keyword_at(s: Seq<char>, i: int, k0: char, k1: char, k2: char) -> bool {
    at(s, i, k0) && at(s, i + 1, k1) && at(s, i + 2, k2) && at(s, i + 3, '(')
}

/// An identifier at `i`: a letter or `_`, then letters, digits and `_`.
/// Gives the position after it.
pub open spec fn ident_end(s: Seq<char>, i: int) -> Option<int> {
    if 0 <= i < s.len() && is_ident_start(s[i]) {
        Some(run_end(s, i + 1, CharClass::Ident))
    } else {
        None
    }
}

/// The rest of a string literal from `i`, behind its opening quote: plain
/// characters, `\\` and `\"`, up to the closing quote. Gives the characters
/// that the literal stands for and the position after the closing quote.
pub open spec fn value_body(s: Seq<char>, i: int) -> Option<(Seq<char>, int)>
    decreases s.len() - i,
{
    if !(0 <= i < s.len()) {
        None
    } else if s[i] == '"' {
        Some((Seq::empty(), i + 1))
    } else if s[i] == '\\' {
        if at(s, i + 1, '\\') || at(s, i + 1, '"') {
            match value_body(s, i + 2) {
                Some((rest, j)) => Some((seq![s[i + 1]] + rest, j)),
                None => None,
            }
        } else {
            None
        }
    } else {
        match value_body(s, i + 1) {
            Some((rest, j)) => Some((seq![s[i]] + rest, j)),
            None => None,
        }
    }
}

/// A string literal at `i`.
pub open spec fn value_at(s: Seq<char>, i: int) -> Option<(Seq<char>, int)> {
    if at(s, i, '"') {
        value_body(s, i + 1)
    } else {
        None
    }
}

/// An expression at `i`, with the blanks around it. Gives the expression and
/// the position after it.
///
/// `any(`, `all(` and `not(` open a compound expression; an identifier
/// followed by `=` opens a comparison with a string literal; any other
/// identifier is a test on its own.
pub open spec fn expr_at(s: Seq<char>, i: int) -> Option<(ExprView, int)>
    decreases s.len() - i, 0int,
{
    let a = run_end(s, i, CharClass::Space);
    if a < i {
        None
    } else if keyword_at(s, a, 'a', 'n', 'y') {
        match list_at(s, a + 4) {
            Some((items, j)) => if at(s, j, ')') {
                Some((ExprView::Any(items), run_end(s, j + 1, CharClass::Space)))
            } else {
                None
            },
            None => None,
        }
    } else if keyword_at(s, a, 'a', 'l', 'l') {
        match list_at(s, a + 4) {
            Some((items, j)) => if at(s, j, ')') {
                Some((ExprView::All(items), run_end(s, j + 1, CharClass::Space)))
            } else {
                None
            },
            None => None,
        }
    } else if keyword_at(s, a, 'n', 'o', 't') {
        match expr_at(s, a + 4) {
            Some((e, j)) => if at(s, j, ')') {
                Some((ExprView::Not(Box::new(e)), run_end(s, j + 1, CharClass::Space)))
            } else {
                None
            },
            None => None,
        }
    } else {
        match ident_end(s, a) {
            None => None,
            Some(b) => {
                let name = AtomView::Ident(s.subrange(a, b));
                let c = run_end(s, b, CharClass::Space);
                if at(s, c, '=') {
                    match value_at(s, run_end(s, c + 1, CharClass::Space)) {
                        Some((v, e)) => Some(
                            (
                                ExprView::TestEqual(name, AtomView::Value(v)),
                                run_end(s, e, CharClass::Space),
                            ),
                        ),
                        None => None,
                    }
                } else {
                    Some((ExprView::TestSet(name), c))
                }
            },
        }
    }
}

/// One or more expressions at `i`, separated by commas.
pub open spec fn list_at(s: Seq<char>, i: int) -> Option<(Seq<ExprView>, int)>
    decreases s.len() - i, 1int,
{
    match expr_at(s, i) {
        None => None,
        Some((e, j)) => if j >= i && at(s, j, ',') {
            match list_at(s, j + 1) {
                Some((rest, k)) => Some((seq![e] + rest, k)),
                None => None,
            }
        } else {
            Some((seq![e], j))
        },
    }
}

/// The expression of a text of the form `cfg(` expression `)`, which blanks
/// may surround.
pub open spec fn cfg_of(s: Seq<char>) -> Option<ExprView> {
    let a = run_end(s, 0, CharClass::Space);
    if keyword_at(s, a, 'c', 'f', 'g') {
        match expr_at(s, a + 4) {
            Some((e, j)) => if at(s, j, ')') && run_end(s, j + 1, CharClass::Space) == s.len() {
                Some(e)
            } else {
                None
            },
            None => None,
        }
    } else {
        None
    }
}

/// Whether a text is a bare triple: one or more letters, digits, `_` and `-`.
pub open spec fn is_triple(s: Seq<char>) -> bool {
    s.len() > 0 && run_end(s, 0, CharClass::Triple) == s.len()
}

/// What a text stands for as a target specification, if anything.
pub open spec fn target_of(s: Seq<char>) -> Option<TargetEnumView> {
    match cfg_of(s) {
        Some(e) => Some(TargetEnumView::Spec(e)),
        None => if is_triple(s) {
            Some(TargetEnumView::Triple(s))
        } else {
            None
        },
    }
}

/// The models of a sequence of expressions.
pub open spec fn expr_views(v: Seq<Expr>) -> Seq<ExprView> {
    Seq::new(v.len(), |k: int| v[k]@)
}

/// A run never ends before its start nor behind the text.
pub proof fn lemma_run_end_bounds(s: Seq<char>, i: int, class: CharClass)
    requires
        0 <= i <= s.len(),
    ensures
        i <= run_end(s, i, class) <= s.len(),
        forall|k: int| i <= k < run_end(s, i, class) ==> in_class(#[trigger] s[k], class),
        run_end(s, i, class) < s.len() ==> !in_class(s[run_end(s, i, class)], class),
    decreases s.len() - i,
{
    if i < s.len() && in_class(s[i], class) {
        lemma_run_end_bounds(s, i + 1, class);
    }
}

fn char_in_class(c: char, class: CharClass) -> (r: bool)
    ensures
        r == in_class(c, class),
{
    let alpha = ('a' <= c && c <= 'z') || ('A' <= c && c <= 'Z');
    let digit = '0' <= c && c <= '9';
    match class {
        CharClass::Space => c == ' ' || c == '\t',
        CharClass::Ident => alpha || digit || c == '_',
        CharClass::Triple => alpha || digit || c == '_' || c == '-',
    }
}

/// Skips the run of characters of `class` at `i`.
fn scan(s: &Vec<char>, i: usize, class: CharClass) -> (r: usize)
    requires
        i <= s.len(),
    ensures
        r == run_end(s@, i as int, class),
        i <= r <= s.len(),
{
    let mut k: usize = i;
    while k < s.len() && char_in_class(s[k], class)
        invariant
            i <= k <= s.len(),
            run_end(s@, i as int, class) == run_end(s@, k as int, class),
        decreases s.len() - k,
    {
        k = k + 1;
    }
    k
}

fn is_at(s: &Vec<char>, i: usize, c: char) -> (r: bool)
    ensures
        r == at(s@, i as int, c),
{
    i < s.len() && s[i] == c
}

fn is_keyword_at(s: &Vec<char>, i: usize, k0: char, k1: char, k2: char) -> (r: bool)
    requires
        i <= s.len(),
    ensures
        r == keyword_at(s@, i as int, k0, k1, k2),
        r ==> i + 4 <= s.len(),
{
    s.len() - i >= 4 && s[i] == k0 && s[i + 1] == k1 && s[i + 2] == k2 && s[i + 3] == '('
}

fn scan_ident(s: &Vec<char>, i: usize) -> (r: Option<usize>)
    requires
        i <= s.len(),
    ensures
        match r {
            Some(j) => ident_end(s@, i as int) == Some(j as int) && i < j <= s.len(),
            None => ident_end(s@, i as int) is None,
        },
{
    if i < s.len() {
        let c = s[i];
        if ('a' <= c && c <= 'z') || ('A' <= c && c <= 'Z') || c == '_' {
            return Some(scan(s, i + 1, CharClass::Ident));
        }
    }
    None
}

fn scan_value_body(s: &Vec<char>, i: usize) -> (r: Option<(Vec<char>, usize)>)
    requires
        i <= s.len(),
    ensures
        match r {
            Some((v, j)) => value_body(s@, i as int) == Some((v@, j as int)) && i < j <= s.len(),
            None => value_body(s@, i as int) is None,
        },
{
    let mut out: Vec<char> = Vec::new();
    let mut k: usize = i;
    loop
        invariant
            i <= k <= s.len(),
            value_body(s@, i as int) == match value_body(s@, k as int) {
                Some((rest, j)) => Some((out@ + rest, j)),
                None => None,
            },
        decreases s.len() - k,
    {
        if k >= s.len() {
            return None;
        }
        let c = s[k];
        if c == '"' {
            assert(out@ + Seq::<char>::empty() =~= out@);
            return Some((out, k + 1));
        }
        if c == '\\' {
            if !(is_at(s, k + 1, '\\') || is_at(s, k + 1, '"')) {
                return None;
            }
            let ghost before = out@;
            out.push(s[k + 1]);
            proof {
                match value_body(s@, k + 2) {
                    Some((rest, j)) => {
                        assert(before + (seq![s@[k + 1]] + rest) =~= out@ + rest);
                    },
                    None => {},
                }
            }
            k = k + 2;
        } else {
            let ghost before = out@;
            out.push(c);
            proof {
                match value_body(s@, k + 1) {
                    Some((rest, j)) => {
                        assert(before + (seq![c] + rest) =~= out@ + rest);
                    },
                    None => {},
                }
            }
            k = k + 1;
        }
    }
}

fn scan_value(s: &Vec<char>, i: usize) -> (r: Option<(Vec<char>, usize)>)
    requires
        i <= s.len(),
    ensures
        match r {
            Some((v, j)) => value_at(s@, i as int) == Some((v@, j as int)) && i < j <= s.len(),
            None => value_at(s@, i as int) is None,
        },
{
    if is_at(s, i, '"') {
        scan_value_body(s, i + 1)
    } else {
        None
    }
}

/// Every expression of the grammar is well-formed, and ends within the text.
pub proof fn lemma_expr_at(s: Seq<char>, i: int)
    requires
        0 <= i <= s.len(),
    ensures
        expr_at(s, i) matches Some((e, j)) ==> e.well_formed() && i <= j <= s.len(),
    decreases s.len() - i, 0int,
{
    let a = run_end(s, i, CharClass::Space);
    lemma_run_end_bounds(s, i, CharClass::Space);
    if keyword_at(s, a, 'a', 'n', 'y') || keyword_at(s, a, 'a', 'l', 'l') {
        lemma_list_at(s, a + 4);
        if let Some((items, j)) = list_at(s, a + 4) {
            if at(s, j, ')') {
                lemma_run_end_bounds(s, j + 1, CharClass::Space);
            }
        }
    } else if keyword_at(s, a, 'n', 'o', 't') {
        lemma_expr_at(s, a + 4);
        if let Some((e, j)) = expr_at(s, a + 4) {
            if at(s, j, ')') {
                lemma_run_end_bounds(s, j + 1, CharClass::Space);
            }
        }
    } else if let Some(b) = ident_end(s, a) {
        lemma_run_end_bounds(s, a + 1, CharClass::Ident);
        lemma_run_end_bounds(s, b, CharClass::Space);
        let c = run_end(s, b, CharClass::Space);
        if at(s, c, '=') {
            lemma_run_end_bounds(s, c + 1, CharClass::Space);
            let d = run_end(s, c + 1, CharClass::Space);
            if at(s, d, '"') {
                lemma_value_body(s, d + 1);
                if let Some((v, e)) = value_body(s, d + 1) {
                    lemma_run_end_bounds(s, e, CharClass::Space);
                }
            }
        }
    }
}

/// Every expression of a list is well-formed, and the list ends within the
/// text and holds at least one expression.
pub proof fn lemma_list_at(s: Seq<char>, i: int)
    requires
        0 <= i <= s.len(),
    ensures
        list_at(s, i) matches Some((items, j)) ==> {
            &&& i <= j <= s.len()
            &&& items.len() >= 1
            &&& forall|k: int| 0 <= k < items.len() ==> (#[trigger] items[k]).well_formed()
        },
    decreases s.len() - i, 1int,
{
    lemma_expr_at(s, i);
    if let Some((e, j)) = expr_at(s, i) {
        if at(s, j, ',') {
            lemma_list_at(s, j + 1);
        }
    }
}

/// A string literal ends within the text.
pub proof fn lemma_value_body(s: Seq<char>, i: int)
    requires
        0 <= i <= s.len(),
    ensures
        value_body(s, i) matches Some((v, j)) ==> i < j <= s.len(),
    decreases s.len() - i,
{
    if i < s.len() && s[i] != '"' {
        if s[i] == '\\' {
            if at(s, i + 1, '\\') || at(s, i + 1, '"') {
                lemma_value_body(s, i + 2);
            }
        } else {
            lemma_value_body(s, i + 1);
        }
    }
}

/// Every target of the grammar is well-formed.
pub proof fn lemma_target_of(s: Seq<char>)
    ensures
        target_of(s) matches Some(t) ==> t.well_formed(),
{
    let a = run_end(s, 0, CharClass::Space);
    lemma_run_end_bounds(s, 0, CharClass::Space);
    if keyword_at(s, a, 'c', 'f', 'g') {
        lemma_expr_at(s, a + 4);
    }
}

/// Parses the expression at `i`.
fn expression_at(s: &Vec<char>, i: usize) -> (r: Option<(Expr, usize)>)
    requires
        i <= s.len(),
    ensures
        match r {
            Some((e, j)) => expr_at(s@, i as int) == Some((e@, j as int)) && i <= j <= s.len(),
            None => expr_at(s@, i as int) is None,
        },
    decreases s.len() - i, 0int,
{
    let a = scan(s, i, CharClass::Space);
    if is_keyword_at(s, a, 'a', 'n', 'y') {
        match expression_list_at(s, a + 4) {
            Some((items, j)) => {
                if is_at(s, j, ')') {
                    let end = scan(s, j + 1, CharClass::Space);
                    let e = Expr::Any(items);
                    assert(e@ == ExprView::Any(expr_views(items@))) by {
                        assert(e@->Any_0 =~= expr_views(items@));
                    }
                    Some((e, end))
                } else {
                    None
                }
            },
            None => None,
        }
    } else if is_keyword_at(s, a, 'a', 'l', 'l') {
        match expression_list_at(s, a + 4) {
            Some((items, j)) => {
                if is_at(s, j, ')') {
                    let end = scan(s, j + 1, CharClass::Space);
                    let e = Expr::All(items);
                    assert(e@ == ExprView::All(expr_views(items@))) by {
                        assert(e@->All_0 =~= expr_views(items@));
                    }
                    Some((e, end))
                } else {
                    None
                }
            },
            None => None,
        }
    } else if is_keyword_at(s, a, 'n', 'o', 't') {
        match expression_at(s, a + 4) {
            Some((inner, j)) => {
                if is_at(s, j, ')') {
                    let end = scan(s, j + 1, CharClass::Space);
                    Some((Expr::Not(Box::new(inner)), end))
                } else {
                    None
                }
            },
            None => None,
        }
    } else {
        match scan_ident(s, a) {
            None => None,
            Some(b) => {
                let name = Atom::Ident(string_of_range(s, a, b));
                let c = scan(s, b, CharClass::Space);
                if is_at(s, c, '=') {
                    let d = scan(s, c + 1, CharClass::Space);
                    match scan_value(s, d) {
                        Some((v, e)) => {
                            let end = scan(s, e, CharClass::Space);
                            let value = Atom::Value(string_of_range(&v, 0, v.len()));
                            assert(v@.subrange(0, v@.len() as int) =~= v@);
                            Some((Expr::TestEqual(name, value), end))
                        },
                        None => None,
                    }
                } else {
                    Some((Expr::TestSet(name), c))
                }
            },
        }
    }
}

/// Parses the list of expressions at `i`.
fn expression_list_at(s: &Vec<char>, i: usize) -> (r: Option<(Vec<Expr>, usize)>)
    requires
        i <= s.len(),
    ensures
        match r {
            Some((v, j)) => list_at(s@, i as int) == Some((expr_views(v@), j as int)) && i <= j
                <= s.len(),
            None => list_at(s@, i as int) is None,
        },
    decreases s.len() - i, 1int,
{
    match expression_at(s, i) {
        None => None,
        Some((e, j)) => {
            if is_at(s, j, ',') {
                match expression_list_at(s, j + 1) {
                    Some((rest, k)) => {
                        let mut items: Vec<Expr> = Vec::new();
                        items.push(e);
                        let mut rest = rest;
                        let ghost rest0 = rest@;
                        items.append(&mut rest);
                        assert(expr_views(items@) =~= seq![e@] + expr_views(rest0));
                        Some((items, k))
                    },
                    None => None,
                }
            } else {
                let mut items: Vec<Expr> = Vec::new();
                items.push(e);
                assert(expr_views(items@) =~= seq![e@]);
                Some((items, j))
            }
        },
    }
}

/// The text from `j` on.
fn rest_from(s: &Vec<char>, j: usize) -> (r: String)
    requires
        j <= s.len(),
    ensures
        r@ == s@.subrange(j as int, s@.len() as int),
{
    string_of_range(s, j, s.len())
}

/// Parses an identifier at the start of the input, and hands out what
/// follows it.
pub fn identifier(input: &str) -> (r: Result<(String, Atom), ParseError>)
    ensures
        match r {
            Ok((rest, atom)) => ident_end(input@, 0) matches Some(j) && atom@ == AtomView::Ident(
                input@.subrange(0, j),
            ) && rest@ == input@.subrange(j, input@.len() as int),
            Err(e) => ident_end(input@, 0) is None && e.input@ == input@,
        },
{
    let s = chars_of(input);
    match scan_ident(&s, 0) {
        Some(j) => Ok((rest_from(&s, j), Atom::Ident(string_of_range(&s, 0, j)))),
        None => Err(ParseError { input: input.to_owned() }),
    }
}

/// Parses a string literal at the start of the input, and hands out what
/// follows it.
pub fn value(input: &str) -> (r: Result<(String, Atom), ParseError>)
    ensures
        match r {
            Ok((rest, atom)) => value_at(input@, 0) matches Some((v, j)) && atom@
                == AtomView::Value(v) && rest@ == input@.subrange(j, input@.len() as int),
            Err(e) => value_at(input@, 0) is None && e.input@ == input@,
        },
{
    let s = chars_of(input);
    match scan_value(&s, 0) {
        Some((v, j)) => {
            assert(v@.subrange(0, v@.len() as int) =~= v@);
            Ok((rest_from(&s, j), Atom::Value(string_of_range(&v, 0, v.len()))))
        },
        None => Err(ParseError { input: input.to_owned() }),
    }
}

/// Parses an expression at the start of the input, with the blanks around
/// it, and hands out what follows it.
pub fn expression(input: &str) -> (r: Result<(String, Expr), ParseError>)
    ensures
        match r {
            Ok((rest, e)) => expr_at(input@, 0) matches Some((v, j)) && e@ == v && rest@
                == input@.subrange(j, input@.len() as int),
            Err(e) => expr_at(input@, 0) is None && e.input@ == input@,
        },
{
    let s = chars_of(input);
    match expression_at(&s, 0) {
        Some((e, j)) => Ok((rest_from(&s, j), e)),
        None => Err(ParseError { input: input.to_owned() }),
    }
}

/// The forms of an expression.
#[derive(Clone, Copy, Debug, PartialEq, Eq)]
pub enum ExprForm {
    Any,
    All,
    Not,
    TestSet,
    TestEqual,
}

impl ExprView {
    /// The form of an expression.
    pub open spec fn form(self) -> ExprForm {
        match self {
            ExprView::Any(_) => ExprForm::Any,
            ExprView::All(_) => ExprForm::All,
            ExprView::Not(_) => ExprForm::Not,
            ExprView::TestSet(_) => ExprForm::TestSet,
            ExprView::TestEqual(_, _) => ExprForm::TestEqual,
        }
    }
}

/// The expression of the given form at the start of a text.
pub open spec fn form_at(s: Seq<char>, form: ExprForm) -> Option<(ExprView, int)> {
    match expr_at(s, 0) {
        Some((e, j)) => if e.form() == form {
            Some((e, j))
        } else {
            None
        },
        None => None,
    }
}

fn expression_of_form(input: &str, form: ExprForm) -> (r: Result<(String, Expr), ParseError>)
    ensures
        match r {
            Ok((rest, e)) => form_at(input@, form) matches Some((v, j)) && e@ == v && rest@
                == input@.subrange(j, input@.len() as int),
            Err(e) => form_at(input@, form) is None && e.input@ == input@,
        },
{
    match expression(input) {
        Ok((rest, e)) => {
            let same = match (&e, form) {
                (Expr::Any(_), ExprForm::Any) => true,
                (Expr::All(_), ExprForm::All) => true,
                (Expr::Not(_), ExprForm::Not) => true,
                (Expr::TestSet(_), ExprForm::TestSet) => true,
                (Expr::TestEqual(_, _), ExprForm::TestEqual) => true,
                _ => false,
            };
            if same {
                Ok((rest, e))
            } else {
                Err(ParseError { input: input.to_owned() })
            }
        },
        Err(e) => Err(e),
    }
}

/// Parses `any(` expressions `)` at the start of the input.
pub fn any(input: &str) -> (r: Result<(String, Expr), ParseError>)
    ensures
        match r {
            Ok((rest, e)) => form_at(input@, ExprForm::Any) matches Some((v, j)) && e@ == v
                && rest@ == input@.subrange(j, input@.len() as int),
            Err(e) => form_at(input@, ExprForm::Any) is None && e.input@ == input@,
        },
{
    expression_of_form(input, ExprForm::Any)
}

/// Parses `all(` expressions `)` at the start of the input.
pub fn all(input: &str) -> (r: Result<(String, Expr), ParseError>)
    ensures
        match r {
            Ok((rest, e)) => form_at(input@, ExprForm::All) matches Some((v, j)) && e@ == v
                && rest@ == input@.subrange(j, input@.len() as int),
            Err(e) => form_at(input@, ExprForm::All) is None && e.input@ == input@,
        },
{
    expression_of_form(input, ExprForm::All)
}

/// Parses `not(` expression `)` at the start of the input.
pub fn not(input: &str) -> (r: Result<(String, Expr), ParseError>)
    ensures
        match r {
            Ok((rest, e)) => form_at(input@, ExprForm::Not) matches Some((v, j)) && e@ == v
                && rest@ == input@.subrange(j, input@.len() as int),
            Err(e) => form_at(input@, ExprForm::Not) is None && e.input@ == input@,
        },
{
    expression_of_form(input, ExprForm::Not)
}

/// Parses a lone identifier at the start of the input.
pub fn test_set(input: &str) -> (r: Result<(String, Expr), ParseError>)
    ensures
        match r {
            Ok((rest, e)) => form_at(input@, ExprForm::TestSet) matches Some((v, j)) && e@ == v
                && rest@ == input@.subrange(j, input@.len() as int),
            Err(e) => form_at(input@, ExprForm::TestSet) is None && e.input@ == input@,
        },
{
    expression_of_form(input, ExprForm::TestSet)
}

/// Parses identifier `=` string literal at the start of the input.
pub fn test_equal(input: &str) -> (r: Result<(String, Expr), ParseError>)
    ensures
        match r {
            Ok((rest, e)) => form_at(input@, ExprForm::TestEqual) matches Some((v, j)) && e@ == v
                && rest@ == input@.subrange(j, input@.len() as int),
            Err(e) => form_at(input@, ExprForm::TestEqual) is None && e.input@ == input@,
        },
{
    expression_of_form(input, ExprForm::TestEqual)
}

/// Parses a text of the form `cfg(` expression `)`.
pub fn cfg_spec(input: &str) -> (r: Result<Expr, ParseError>)
    ensures
        match r {
            Ok(e) => cfg_of(input@) == Some(e@),
            Err(e) => cfg_of(input@) is None && e.input@ == input@,
        },
{
    let s = chars_of(input);
    let a = scan(&s, 0, CharClass::Space);
    if is_keyword_at(&s, a, 'c', 'f', 'g') {
        match expression_at(&s, a + 4) {
            Some((e, j)) => {
                if is_at(&s, j, ')') {
                    let end = scan(&s, j + 1, CharClass::Space);
                    if end == s.len() {
                        return Ok(e);
                    }
                }
            },
            None => {},
        }
    }
    Err(ParseError { input: input.to_owned() })
}

/// Splits the input behind its longest start of letters, digits, `_` and
/// `-`, which must not be empty.
pub fn triple_string(input: &str) -> (r: Result<(String, String), ParseError>)
    ensures
        match r {
            Ok((rest, triple)) => {
                let j = run_end(input@, 0, CharClass::Triple);
                j > 0 && triple@ == input@.subrange(0, j) && rest@ == input@.subrange(
                    j,
                    input@.len() as int,
                )
            },
            Err(e) => run_end(input@, 0, CharClass::Triple) == 0 && e.input@ == input@,
        },
{
    let s = chars_of(input);
    let j = scan(&s, 0, CharClass::Triple);
    if j > 0 {
        Ok((rest_from(&s, j), string_of_range(&s, 0, j)))
    } else {
        Err(ParseError { input: input.to_owned() })
    }
}

/// Parses a target specification: `cfg(` expression `)`, or a bare triple.
pub fn parse_impl(input: &str) -> (r: Result<TargetEnum, ParseError>)
    ensures
        match r {
            Ok(t) => target_of(input@) == Some(t@) && t@.well_formed(),
            Err(e) => target_of(input@) is None && e.input@ == input@,
        },
{
    proof {
        lemma_target_of(input@);
    }
    match cfg_spec(input) {
        Ok(e) => Ok(TargetEnum::Spec(e)),
        Err(_) => {
            let s = chars_of(input);
            if s.len() > 0 && scan(&s, 0, CharClass::Triple) == s.len() {
                Ok(TargetEnum::Triple(input.to_owned()))
            } else {
                Err(ParseError { input: input.to_owned() })
            }
        },
    }
}

} // verus!
