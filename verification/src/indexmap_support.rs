//! Tables of names, kept in `indexmap` sets.
//!
//! A table gives each name the index at which it was first inserted. What
//! a table holds is named by [`names_of`]; the functions of this module
//! state what `indexmap` does to it, and nothing of them is proved here.

use indexmap::IndexSet;
use std::collections::hash_map::RandomState;
use vstd::prelude::*;

verus! {

#[verifier::external_type_specification]
#[verifier::external_body]
#[verifier::reject_recursive_types(T)]
#[verifier::reject_recursive_types(S)]
pub struct ExIndexSet<T, S>(IndexSet<T, S>);

/// The names of a table, in the order of their insertion.
pub uninterp spec fn names_of(table: IndexSet<String, RandomState>) -> Seq<Seq<char>>;

/// Whether no name occurs twice.
pub open spec fn distinct_names(names: Seq<Seq<char>>) -> bool {
    forall|i: int, j: int|
        0 <= i < names.len() && 0 <= j < names.len() && i != j ==> (#[trigger] names[i]) != (
        #[trigger] names[j])
}

/// `IndexSet::new`: a table without names.
#[verifier::external_body]
pub(crate) fn names_new() -> (table: IndexSet<String, RandomState>)
    ensures
        names_of(table) == Seq::<Seq<char>>::empty(),
{
    IndexSet::new()
}

/// `IndexSet::len`.
#[verifier::external_body]
pub(crate) fn names_len(table: &IndexSet<String, RandomState>) -> (n: usize)
    ensures
        n == names_of(*table).len(),
{
    table.len()
}

/// `IndexSet::insert_full`: where the name is in the table, its index and
/// `false`, and the table stays as it is; else the name goes to the end,
/// and its index comes back with `true`.
#[verifier::external_body]
pub(crate) fn names_insert(table: &mut IndexSet<String, RandomState>, name: String) -> (r: (
    usize,
    bool,
))
    ensures
        r.1 ==> !names_of(*old(table)).contains(name@) && names_of(*final(table)) == names_of(
            *old(table),
        ).push(name@) && r.0 == names_of(*old(table)).len(),
        !r.1 ==> names_of(*final(table)) == names_of(*old(table)) && r.0 < names_of(
            *old(table),
        ).len() && names_of(*old(table))[r.0 as int] == name@,
{
    table.insert_full(name)
}

/// `IndexSet::get_index_of`: the index of a name, if the table holds it.
#[verifier::external_body]
pub(crate) fn names_index_of(table: &IndexSet<String, RandomState>, name: &str) -> (r: Option<
    usize,
>)
    ensures
        match r {
            Some(i) => i < names_of(*table).len() && names_of(*table)[i as int] == name@,
            None => !names_of(*table).contains(name@),
        },
{
    table.get_index_of(name)
}

/// `IndexSet::get_index`: the name at an index.
#[verifier::external_body]
pub(crate) fn names_get(table: &IndexSet<String, RandomState>, i: usize) -> (name: &String)
    requires
        i < names_of(*table).len(),
    ensures
        name@ == names_of(*table)[i as int],
{
    table.get_index(i).unwrap()
}

} // verus!
