//! Sets of strings and maps from strings to such sets, kept in the order
//! of a dictionary.

use crate::graph::dependency::strings_view;
use crate::graph::workspace::{
    lemma_text_lt_irreflexive, lemma_text_lt_transitive, text_lt, text_order, TextOrder,
};
use vstd::prelude::*;

verus! {

/// Whether texts come in the order of a dictionary, none twice.
pub open spec fn strictly_sorted(keys: Seq<Seq<char>>) -> bool {
    forall|i: int, j: int| 0 <= i < j < keys.len() ==> text_lt(#[trigger] keys[i], #[trigger] keys[j])
}

/// Finds the place of a key among sorted keys: the index where it is, with
/// `true`, or the index where it is to go, with `false`.
pub fn sorted_position(keys: &Vec<String>, key: &str) -> (r: (usize, bool))
    requires
        strictly_sorted(strings_view(keys@)),
    ensures
        r.0 <= keys.len(),
        r.1 ==> r.0 < keys.len() && keys[r.0 as int]@ == key@,
        !r.1 ==> (forall|i: int| 0 <= i < r.0 ==> text_lt(#[trigger] strings_view(keys@)[i], key@)) && (
        forall|i: int|
            r.0 <= i < keys.len() ==> text_lt(key@, #[trigger] strings_view(keys@)[i])),
{
    let ghost names = strings_view(keys@);
    let mut pos: usize = 0;
    let mut found = false;
    while !found && pos < keys.len()
        invariant
            pos <= keys.len(),
            names == strings_view(keys@),
            strictly_sorted(names),
            forall|i: int| 0 <= i < pos ==> text_lt(#[trigger] names[i], key@),
            found ==> pos < keys.len() && text_lt(key@, names[pos as int]),
        decreases keys.len() - pos + if found { 0int } else { 1int },
    {
        assert(names[pos as int] == keys[pos as int]@);
        match text_order(keys[pos].as_str(), key) {
            TextOrder::Before => {
                pos = pos + 1;
            },
            TextOrder::Same => {
                return (pos, true);
            },
            TextOrder::After => {
                found = true;
            },
        }
    }
    proof {
        assert forall|i: int| pos <= i < keys.len() implies text_lt(key@, #[trigger] names[i]) by {
            if i > pos {
                lemma_text_lt_transitive(key@, names[pos as int], names[i]);
            }
        }
    }
    (pos, false)
}

/// Putting a key at its place among sorted keys leaves them sorted.
pub proof fn lemma_insert_sorted(keys: Seq<Seq<char>>, pos: int, key: Seq<char>)
    requires
        strictly_sorted(keys),
        0 <= pos <= keys.len(),
        forall|i: int| 0 <= i < pos ==> text_lt(#[trigger] keys[i], key),
        forall|i: int| pos <= i < keys.len() ==> text_lt(key, #[trigger] keys[i]),
    ensures
        strictly_sorted(keys.insert(pos, key)),
        forall|x: Seq<char>| #[trigger] keys.insert(pos, key).contains(x) <==> (keys.contains(x) || x == key),
        !keys.contains(key),
{
    let after = keys.insert(pos, key);
    assert forall|i: int, j: int| 0 <= i < j < after.len() implies text_lt(
        #[trigger] after[i],
        #[trigger] after[j],
    ) by {
        if j < pos {
            assert(after[i] == keys[i] && after[j] == keys[j]);
        } else if j == pos {
            assert(after[i] == keys[i]);
        } else if i < pos {
            assert(after[i] == keys[i] && after[j] == keys[j - 1]);
            lemma_text_lt_transitive(keys[i], key, keys[j - 1]);
        } else if i == pos {
            assert(after[j] == keys[j - 1]);
        } else {
            assert(after[i] == keys[i - 1] && after[j] == keys[j - 1]);
        }
    }
    assert forall|x: Seq<char>| #[trigger] after.contains(x) <==> (keys.contains(x) || x == key) by {
        if after.contains(x) {
            let i = choose|i: int| 0 <= i < after.len() && after[i] == x;
            if i < pos {
                assert(keys[i] == x);
            } else if i > pos {
                assert(keys[i - 1] == x);
            }
        }
        if keys.contains(x) {
            let i = choose|i: int| 0 <= i < keys.len() && keys[i] == x;
            if i < pos {
                assert(after[i] == x);
            } else {
                assert(after[i + 1] == x);
            }
        }
        assert(after[pos] == key);
    }
    if keys.contains(key) {
        let i = choose|i: int| 0 <= i < keys.len() && keys[i] == key;
        lemma_text_lt_irreflexive(key);
    }
}

/// Among sorted keys, no key is at two places.
pub proof fn lemma_sorted_unique(keys: Seq<Seq<char>>, a: int, b: int)
    requires
        strictly_sorted(keys),
        0 <= a < keys.len(),
        0 <= b < keys.len(),
        keys[a] == keys[b],
    ensures
        a == b,
{
    lemma_text_lt_irreflexive(keys[a]);
    if a < b {
        assert(text_lt(keys[a], keys[b]));
    } else if b < a {
        assert(text_lt(keys[b], keys[a]));
    }
}

/// Sorted keys are fixed by what they hold: two sorted lists of the same
/// keys are the same list.
pub proof fn lemma_sorted_same(a: Seq<Seq<char>>, b: Seq<Seq<char>>)
    requires
        strictly_sorted(a),
        strictly_sorted(b),
        forall|x: Seq<char>| a.contains(x) <==> b.contains(x),
    ensures
        a == b,
    decreases a.len(),
{
    if a.len() == 0 {
        if b.len() > 0 {
            assert(b.contains(b[0]));
        }
        assert(a =~= b);
    } else {
        assert(a.contains(a[0]));
        assert(b.len() > 0);
        let la = a.last();
        let lb = b.last();
        assert(a.contains(la));
        assert(b.contains(lb));
        let j = choose|j: int| 0 <= j < b.len() && b[j] == la;
        let i = choose|i: int| 0 <= i < a.len() && a[i] == lb;
        lemma_text_lt_irreflexive(la);
        if j < b.len() - 1 {
            assert(text_lt(b[j], b[b.len() - 1]));
            if i < a.len() - 1 {
                assert(text_lt(a[i], a[a.len() - 1]));
                lemma_text_lt_transitive(la, lb, la);
            }
        }
        assert(la == lb);
        let x = a.drop_last();
        let y = b.drop_last();
        assert forall|v: Seq<char>| x.contains(v) <==> y.contains(v) by {
            if x.contains(v) {
                let k = choose|k: int| 0 <= k < x.len() && x[k] == v;
                assert(a[k] == v);
                assert(text_lt(a[k], a[a.len() - 1]));
                assert(a.contains(v));
                let l = choose|l: int| 0 <= l < b.len() && b[l] == v;
                assert(y[l] == v);
            }
            if y.contains(v) {
                let k = choose|k: int| 0 <= k < y.len() && y[k] == v;
                assert(b[k] == v);
                assert(text_lt(b[k], b[b.len() - 1]));
                assert(b.contains(v));
                let l = choose|l: int| 0 <= l < a.len() && a[l] == v;
                assert(x[l] == v);
            }
        }
        lemma_sorted_same(x, y);
        assert(a =~= x.push(la));
        assert(b =~= y.push(lb));
    }
}

/// A set of strings, kept in the order of a dictionary.
#[derive(Clone, Debug, PartialEq, Eq)]
pub struct StringSet {
    items: Vec<String>,
}

impl View for StringSet {
    type V = Set<Seq<char>>;

    closed spec fn view(&self) -> Set<Seq<char>> {
        Set::new(|x: Seq<char>| strings_view(self.items@).contains(x))
    }
}

impl StringSet {
    /// Whether the strings are in order.
    pub closed spec fn wf(&self) -> bool {
        strictly_sorted(strings_view(self.items@))
    }

    /// The strings in their order.
    pub closed spec fn in_order(&self) -> Seq<Seq<char>> {
        strings_view(self.items@)
    }

    /// A set keeps its strings in one order: two sets of the same strings
    /// keep the same list.
    pub proof fn lemma_order_fixed(&self, other: &StringSet)
        requires
            self.wf(),
            other.wf(),
            self@ == other@,
        ensures
            self.in_order() == other.in_order(),
    {
        let a = self.in_order();
        let b = other.in_order();
        assert forall|x: Seq<char>| a.contains(x) <==> b.contains(x) by {
            assert(a.contains(x) == self@.contains(x));
            assert(b.contains(x) == other@.contains(x));
        }
        lemma_sorted_same(a, b);
    }

    /// The empty set.
    pub fn new() -> (r: StringSet)
        ensures
            r.wf(),
            r@ == Set::<Seq<char>>::empty(),
    {
        let r = StringSet { items: Vec::new() };
        assert(r@ =~= Set::<Seq<char>>::empty());
        r
    }

    /// Puts a string into the set.
    pub fn insert(&mut self, item: String)
        requires
            old(self).wf(),
        ensures
            final(self).wf(),
            final(self)@ == old(self)@.insert(item@),
    {
        let ghost before = strings_view(self.items@);
        let (pos, found) = sorted_position(&self.items, item.as_str());
        if found {
            assert(before[pos as int] == item@);
            assert(self@ =~= self@.insert(item@));
        } else {
            proof {
                lemma_insert_sorted(before, pos as int, item@);
            }
            self.items.insert(pos, item);
            assert(strings_view(self.items@) =~= before.insert(pos as int, item@));
            assert(self@ =~= old(self)@.insert(item@));
        }
    }

    /// Returns true if the set holds the string.
    pub fn contains(&self, item: &str) -> (r: bool)
        requires
            self.wf(),
        ensures
            r == self@.contains(item@),
    {
        let (pos, found) = sorted_position(&self.items, item);
        proof {
            let names = strings_view(self.items@);
            if found {
                assert(names[pos as int] == item@);
            } else if names.contains(item@) {
                let i = choose|i: int| 0 <= i < names.len() && names[i] == item@;
                lemma_text_lt_irreflexive(item@);
            }
        }
        found
    }

    /// The strings of the set, in the order of a dictionary.
    pub fn items(&self) -> (r: &Vec<String>)
        requires
            self.wf(),
        ensures
            strings_view(r@) == self.in_order(),
            strictly_sorted(strings_view(r@)),
            forall|x: Seq<char>| self@.contains(x) <==> #[trigger] strings_view(r@).contains(x),
    {
        &self.items
    }
}

/// A map from strings to sets of strings, kept in the order of its keys.
#[derive(Clone, Debug, PartialEq, Eq)]
pub struct StringSetMap {
    keys: Vec<String>,
    values: Vec<StringSet>,
}

impl View for StringSetMap {
    type V = Map<Seq<char>, Set<Seq<char>>>;

    closed spec fn view(&self) -> Map<Seq<char>, Set<Seq<char>>> {
        Map::new(
            |k: Seq<char>| strings_view(self.keys@).contains(k),
            |k: Seq<char>| self.values[strings_view(self.keys@).index_of(k)]@,
        )
    }
}

impl StringSetMap {
    /// Whether the keys are in order, each with a set in order.
    pub closed spec fn wf(&self) -> bool {
        &&& strictly_sorted(strings_view(self.keys@))
        &&& self.keys.len() == self.values.len()
        &&& forall|i: int| 0 <= i < self.values.len() ==> (#[trigger] self.values[i]).wf()
    }

    /// A map keeps its keys in one order: two maps of the same keys keep
    /// the same list.
    pub proof fn lemma_order_fixed(&self, other: &StringSetMap)
        requires
            self.wf(),
            other.wf(),
            self@.dom() == other@.dom(),
        ensures
            self.keys_in_order() == other.keys_in_order(),
    {
        let a = strings_view(self.keys@);
        let b = strings_view(other.keys@);
        assert forall|x: Seq<char>| a.contains(x) <==> b.contains(x) by {
            assert(a.contains(x) == self@.dom().contains(x));
            assert(b.contains(x) == other@.dom().contains(x));
        }
        lemma_sorted_same(a, b);
    }

    /// The empty map.
    pub fn new() -> (r: StringSetMap)
        ensures
            r.wf(),
            r@ == Map::<Seq<char>, Set<Seq<char>>>::empty(),
    {
        let r = StringSetMap { keys: Vec::new(), values: Vec::new() };
        assert(r@ =~= Map::<Seq<char>, Set<Seq<char>>>::empty());
        r
    }

    /// Gives a key a set, in place of the one that it had, if any.
    pub fn insert(&mut self, key: String, value: StringSet)
        requires
            old(self).wf(),
            value.wf(),
        ensures
            final(self).wf(),
            final(self)@ == old(self)@.insert(key@, value@),
    {
        let ghost before = strings_view(self.keys@);
        let ghost old_values = self.values@;
        let (pos, found) = sorted_position(&self.keys, key.as_str());
        if found {
            assert(before[pos as int] == key@);
            self.values.set(pos, value);
            proof {
                assert forall|k: Seq<char>| before.contains(k) implies #[trigger] self@[k] == old(
                    self,
                )@.insert(key@, value@)[k] by {
                    let i = before.index_of(k);
                    assert(before[i] == k);
                    if k == key@ {
                        lemma_sorted_unique(before, i, pos as int);
                    } else {
                        assert(i != pos);
                    }
                }
                assert(self@ =~= old(self)@.insert(key@, value@));
            }
        } else {
            proof {
                lemma_insert_sorted(before, pos as int, key@);
            }
            self.keys.insert(pos, key);
            self.values.insert(pos, value);
            proof {
                let after = strings_view(self.keys@);
                assert(after =~= before.insert(pos as int, key@));
                assert forall|k: Seq<char>| after.contains(k) implies #[trigger] self@[k] == old(
                    self,
                )@.insert(key@, value@)[k] by {
                    let i = after.index_of(k);
                    assert(after[i] == k);
                    if k == key@ {
                        lemma_sorted_unique(after, i, pos as int);
                    } else {
                        let j = before.index_of(k);
                        assert(before[j] == k);
                        let shifted = if j < pos {
                            j
                        } else {
                            j + 1
                        };
                        assert(after[shifted] == k);
                        lemma_sorted_unique(after, i, shifted);
                    }
                }
                assert(self@ =~= old(self)@.insert(key@, value@));
            }
        }
    }

    /// The number of keys.
    pub fn len(&self) -> (r: usize)
        requires
            self.wf(),
        ensures
            r == self.keys_in_order().len(),
    {
        self.keys.len()
    }

    /// The keys in their order.
    pub closed spec fn keys_in_order(&self) -> Seq<Seq<char>> {
        strings_view(self.keys@)
    }

    /// The key at an index of the order, with its set.
    pub fn entry(&self, i: usize) -> (r: (&str, &StringSet))
        requires
            self.wf(),
            i < self.keys_in_order().len(),
        ensures
            r.0@ == self.keys_in_order()[i as int],
            self@.dom().contains(r.0@),
            self@[r.0@] == r.1@,
            r.1.wf(),
    {
        proof {
            let names = strings_view(self.keys@);
            assert(names[i as int] == self.keys[i as int]@);
            let j = names.index_of(names[i as int]);
            assert(names.contains(names[i as int]));
            assert(names[j] == names[i as int]);
            lemma_sorted_unique(names, j, i as int);
        }
        (self.keys[i].as_str(), &self.values[i])
    }

    /// The set of a key, if it has one.
    pub fn get(&self, key: &str) -> (r: Option<&StringSet>)
        requires
            self.wf(),
        ensures
            match r {
                Some(set) => self@.dom().contains(key@) && self@[key@] == set@ && set.wf(),
                None => !self@.dom().contains(key@),
            },
    {
        let (pos, found) = sorted_position(&self.keys, key);
        proof {
            let names = strings_view(self.keys@);
            if found {
                assert(names[pos as int] == key@);
                let j = names.index_of(key@);
                assert(names[j] == key@);
                lemma_sorted_unique(names, j, pos as int);
            } else if names.contains(key@) {
                let i = choose|i: int| 0 <= i < names.len() && names[i] == key@;
                lemma_text_lt_irreflexive(key@);
            }
        }
        if found {
            Some(&self.values[pos])
        } else {
            None
        }
    }

    /// A copy of this map.
    pub fn duplicate(&self) -> (r: StringSetMap)
        requires
            self.wf(),
        ensures
            r.wf(),
            r@ == self@,
    {
        let mut out = StringSetMap::new();
        let mut i: usize = 0;
        while i < self.keys.len()
            invariant
                i <= self.keys.len(),
                self.wf(),
                out.wf(),
                forall|k: Seq<char>| #[trigger]
                    out@.dom().contains(k) <==> exists|j: int|
                        0 <= j < i && strings_view(self.keys@)[j] == k,
                forall|j: int|
                    0 <= j < i ==> out@[#[trigger] strings_view(self.keys@)[j]] == self.values[j]@,
            decreases self.keys.len() - i,
        {
            let ghost names = strings_view(self.keys@);
            let ghost before = out@;
            let mut copy = StringSet::new();
            let items = self.values[i].items();
            let mut j: usize = 0;
            while j < items.len()
                invariant
                    j <= items.len(),
                    copy.wf(),
                    forall|x: Seq<char>| #[trigger]
                        copy@.contains(x) <==> exists|l: int|
                            0 <= l < j && strings_view(items@)[l] == x,
                decreases items.len() - j,
            {
                assert(strings_view(items@)[j as int] == items[j as int]@);
                copy.insert(items[j].clone());
                j = j + 1;
            }
            assert(copy@ =~= self.values[i as int]@) by {
                assert forall|x: Seq<char>| copy@.contains(x) <==> self.values[i as int]@.contains(
                    x,
                ) by {
                    if self.values[i as int]@.contains(x) {
                        assert(strings_view(items@).contains(x));
                        let l = choose|l: int|
                            0 <= l < strings_view(items@).len() && strings_view(items@)[l] == x;
                    }
                    if copy@.contains(x) {
                        let l = choose|l: int| 0 <= l < j && strings_view(items@)[l] == x;
                        assert(strings_view(items@).contains(x));
                    }
                }
            }
            assert(names[i as int] == self.keys[i as int]@);
            out.insert(self.keys[i].clone(), copy);
            proof {
                assert forall|l: int| 0 <= l < i + 1 implies out@[#[trigger] names[l]]
                    == self.values[l]@ by {
                    if l < i {
                        if names[l] == names[i as int] {
                            lemma_sorted_unique(names, l, i as int);
                        }
                        assert(before[names[l]] == self.values[l]@);
                    }
                }
            }
            i = i + 1;
        }
        proof {
            let names = strings_view(self.keys@);
            assert forall|k: Seq<char>| out@.dom().contains(k) <==> self@.dom().contains(k) by {
                if self@.dom().contains(k) {
                    let j = choose|j: int| 0 <= j < names.len() && names[j] == k;
                }
                if out@.dom().contains(k) {
                    let j = choose|j: int| 0 <= j < i && names[j] == k;
                    assert(names.contains(k));
                }
            }
            assert forall|k: Seq<char>| self@.dom().contains(k) implies out@[k] == self@[k] by {
                let j = names.index_of(k);
                assert(names[j] == k);
                assert(out@[names[j]] == self.values[j]@);
            }
            assert(out@ =~= self@);
        }
        out
    }
}

} // verus!
