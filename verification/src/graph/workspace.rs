//! The workspace: its root and its members, by the paths that they are at.

use crate::metadata::PackageId;
use crate::text::{chars_of, string_of_range};
use vstd::prelude::*;

verus! {

/// Whether `a` and `b` agree before the place `k`, where `a` has the
/// smaller character, or ends while `b` goes on.
pub open spec fn parts_at(a: Seq<char>, b: Seq<char>, k: int) -> bool {
    &&& 0 <= k <= a.len()
    &&& k < b.len()
    &&& forall|i: int| 0 <= i < k ==> a[i] == b[i]
    &&& k == a.len() || a[k] < b[k]
}

/// Whether `a` comes before `b` in the order of a dictionary: at the first
/// place where they differ `a` has the smaller character, or `a` ends there
/// and `b` goes on.
pub open spec fn text_lt(a: Seq<char>, b: Seq<char>) -> bool {
    exists|k: int| parts_at(a, b, k)
}

/// The order of a dictionary passes on.
pub proof fn lemma_text_lt_transitive(a: Seq<char>, b: Seq<char>, c: Seq<char>)
    requires
        text_lt(a, b),
        text_lt(b, c),
    ensures
        text_lt(a, c),
{
    let k1 = choose|k: int| parts_at(a, b, k);
    let k2 = choose|k: int| parts_at(b, c, k);
    let k = if k1 <= k2 {
        k1
    } else {
        k2
    };
    assert(parts_at(a, c, k));
}

/// No text comes before itself.
pub proof fn lemma_text_lt_irreflexive(a: Seq<char>)
    ensures
        !text_lt(a, a),
{
}

/// How two texts stand in the order of a dictionary.
#[derive(Clone, Copy, Debug, PartialEq, Eq)]
pub enum TextOrder {
    Before,
    Same,
    After,
}

/// Puts two texts in the order of a dictionary.
pub fn text_order(a: &str, b: &str) -> (r: TextOrder)
    ensures
        match r {
            TextOrder::Before => text_lt(a@, b@),
            TextOrder::Same => a@ == b@,
            TextOrder::After => text_lt(b@, a@),
        },
{
    let x = chars_of(a);
    let y = chars_of(b);
    let mut k: usize = 0;
    while k < x.len() && k < y.len()
        invariant
            k <= x.len(),
            k <= y.len(),
            x@ == a@,
            y@ == b@,
            forall|i: int| 0 <= i < k ==> x[i] == y[i],
        decreases x.len() - k,
    {
        if x[k] < y[k] {
            assert(parts_at(a@, b@, k as int));
            return TextOrder::Before;
        }
        if y[k] < x[k] {
            assert(parts_at(b@, a@, k as int));
            return TextOrder::After;
        }
        k = k + 1;
    }
    if k < y.len() {
        assert(parts_at(a@, b@, k as int));
        TextOrder::Before
    } else if k < x.len() {
        assert(parts_at(b@, a@, k as int));
        TextOrder::After
    } else {
        assert(x@ =~= y@);
        TextOrder::Same
    }
}

/// Whether `a` and `b` agree before the place `k`, where `a` has the
/// smaller number, or ends while `b` goes on.
pub open spec fn key_parts_at(a: Seq<i64>, b: Seq<i64>, k: int) -> bool {
    &&& 0 <= k <= a.len()
    &&& k < b.len()
    &&& forall|i: int| 0 <= i < k ==> a[i] == b[i]
    &&& k == a.len() || a[k] < b[k]
}

/// Whether the key `a` comes before the key `b`: at the first place where
/// they differ `a` has the smaller number, or `a` ends there and `b` goes
/// on.
pub open spec fn key_lt(a: Seq<i64>, b: Seq<i64>) -> bool {
    exists|k: int| key_parts_at(a, b, k)
}

/// The order of the keys passes on.
pub proof fn lemma_key_lt_transitive(a: Seq<i64>, b: Seq<i64>, c: Seq<i64>)
    requires
        key_lt(a, b),
        key_lt(b, c),
    ensures
        key_lt(a, c),
{
    let k1 = choose|k: int| key_parts_at(a, b, k);
    let k2 = choose|k: int| key_parts_at(b, c, k);
    let k = if k1 <= k2 {
        k1
    } else {
        k2
    };
    assert(key_parts_at(a, c, k));
}

/// No key comes before itself.
pub proof fn lemma_key_lt_irreflexive(a: Seq<i64>)
    ensures
        !key_lt(a, a),
{
}

/// Puts two keys in order.
pub fn key_order(x: &Vec<i64>, y: &Vec<i64>) -> (r: TextOrder)
    ensures
        match r {
            TextOrder::Before => key_lt(x@, y@),
            TextOrder::Same => x@ == y@,
            TextOrder::After => key_lt(y@, x@),
        },
{
    let mut k: usize = 0;
    while k < x.len() && k < y.len()
        invariant
            k <= x.len(),
            k <= y.len(),
            forall|i: int| 0 <= i < k ==> x[i] == y[i],
        decreases x.len() - k,
    {
        if x[k] < y[k] {
            assert(key_parts_at(x@, y@, k as int));
            return TextOrder::Before;
        }
        if y[k] < x[k] {
            assert(key_parts_at(y@, x@, k as int));
            return TextOrder::After;
        }
        k = k + 1;
    }
    if k < y.len() {
        assert(key_parts_at(x@, y@, k as int));
        TextOrder::Before
    } else if k < x.len() {
        assert(key_parts_at(y@, x@, k as int));
        TextOrder::After
    } else {
        assert(x@ =~= y@);
        TextOrder::Same
    }
}

/// The numbers of the characters of a text.
pub open spec fn codes(p: Seq<char>) -> Seq<i64> {
    Seq::new(p.len(), |k: int| p[k] as u32 as i64)
}

/// What the piece of a path between two slashes adds to the key of the
/// path. An empty piece is no component, and neither is a `.` unless the
/// path begins with it. A component begins with `-1`, which is below every
/// character; then comes its kind: `2` for the `.` in front, `3` for `..`,
/// `4` for a name, which its characters follow.
pub open spec fn piece_key(p: Seq<char>, first: bool) -> Seq<i64> {
    if p.len() == 0 {
        Seq::empty()
    } else if p == seq!['.'] {
        if first {
            seq![-1i64, 2i64]
        } else {
            Seq::empty()
        }
    } else if p == seq!['.', '.'] {
        seq![-1i64, 3i64]
    } else {
        seq![-1i64, 4i64] + codes(p)
    }
}

/// The key of what is left of a path from `start` on, where the piece
/// that begins at `start` has been read up to `i`.
pub open spec fn key_at(s: Seq<char>, start: int, i: int) -> Seq<i64>
    decreases s.len() - i,
{
    if start < 0 || i < start || i > s.len() {
        Seq::empty()
    } else if i == s.len() {
        piece_key(s.subrange(start, i), start == 0)
    } else if s[i] == '/' {
        piece_key(s.subrange(start, i), start == 0) + key_at(s, i + 1, i + 1)
    } else {
        key_at(s, start, i + 1)
    }
}

/// The key of a path: its components one after the other, each as
/// `piece_key` gives it, behind `-1, 1` for the root where the path begins
/// with `/`. Two paths have the same key when they have the same
/// components, whatever they have of repeated slashes, of a slash at the
/// end and of `.` in the middle. The order of the keys is the order of the
/// paths component by component: the root, `.` and `..` before names,
/// names by their characters, and a path before every path that it is the
/// beginning of.
pub open spec fn path_key(s: Seq<char>) -> Seq<i64> {
    (if s.len() > 0 && s[0] == '/' {
        seq![-1i64, 1i64]
    } else {
        Seq::empty()
    }) + key_at(s, 0, 0)
}

/// Whether the path `a` comes before the path `b`, component by
/// component.
pub open spec fn path_lt(a: Seq<char>, b: Seq<char>) -> bool {
    key_lt(path_key(a), path_key(b))
}

/// Whether two texts are the same path: they have the same components.
pub open spec fn same_path(a: Seq<char>, b: Seq<char>) -> bool {
    path_key(a) == path_key(b)
}

/// The order of the paths passes on.
pub proof fn lemma_path_lt_transitive(a: Seq<char>, b: Seq<char>, c: Seq<char>)
    requires
        path_lt(a, b),
        path_lt(b, c),
    ensures
        path_lt(a, c),
{
    lemma_key_lt_transitive(path_key(a), path_key(b), path_key(c));
}

/// A path does not come before a path that it is the same as.
pub proof fn lemma_path_lt_differs(a: Seq<char>, b: Seq<char>)
    requires
        path_lt(a, b) || path_lt(b, a),
    ensures
        !same_path(a, b),
{
    lemma_key_lt_irreflexive(path_key(a));
}

// Appends to the key what the piece `s[start .. end]` adds to it.
fn push_piece(out: &mut Vec<i64>, s: &Vec<char>, start: usize, end: usize)
    requires
        start <= end <= s.len(),
    ensures
        final(out)@ == old(out)@ + piece_key(s@.subrange(start as int, end as int), start == 0),
{
    let ghost before = out@;
    let ghost p = s@.subrange(start as int, end as int);
    let n = end - start;
    if n == 0 {
        assert(before + Seq::<i64>::empty() =~= before);
        return ;
    }
    if n == 1 && s[start] == '.' {
        assert(p =~= seq!['.']);
        if start == 0 {
            out.push(-1);
            out.push(2);
            assert(out@ =~= before + seq![-1i64, 2i64]);
        } else {
            assert(before + Seq::<i64>::empty() =~= before);
        }
        return ;
    }
    if n == 2 && s[start] == '.' && s[start + 1] == '.' {
        assert(p =~= seq!['.', '.']);
        assert(p != seq!['.']) by {
            assert(seq!['.'].len() == 1);
        }
        out.push(-1);
        out.push(3);
        assert(out@ =~= before + seq![-1i64, 3i64]);
        return ;
    }
    assert(p != seq!['.']) by {
        if p == seq!['.'] {
            assert(seq!['.'].len() == 1);
            assert(p[0] == seq!['.'][0]);
            assert(p[0] == s@[start as int]);
        }
    }
    assert(p != seq!['.', '.']) by {
        if p == seq!['.', '.'] {
            assert(seq!['.', '.'].len() == 2);
            assert(p[0] == seq!['.', '.'][0]);
            assert(p[1] == seq!['.', '.'][1]);
            assert(p[0] == s@[start as int]);
            assert(p[1] == s@[start + 1]);
        }
    }
    out.push(-1);
    out.push(4);
    let mut k: usize = start;
    while k < end
        invariant
            start <= k <= end <= s.len(),
            p == s@.subrange(start as int, end as int),
            out@ == before + seq![-1i64, 4i64] + codes(p.subrange(0, k - start)),
        decreases end - k,
    {
        let c = s[k];
        let ghost was = out@;
        out.push(c as u32 as i64);
        assert(p[k - start] == c);
        assert(was == before + seq![-1i64, 4i64] + codes(p.subrange(0, k - start)));
        assert(codes(p.subrange(0, k + 1 - start)) =~= codes(p.subrange(0, k - start)).push(
            c as u32 as i64,
        ));
        assert(out@ =~= before + seq![-1i64, 4i64] + codes(p.subrange(0, k + 1 - start)));
        k = k + 1;
    }
    assert(p.subrange(0, end - start) =~= p);
    assert(out@ =~= before + (seq![-1i64, 4i64] + codes(p)));
}

/// Computes the key of a path.
pub fn path_key_of(path: &str) -> (r: Vec<i64>)
    ensures
        r@ == path_key(path@),
{
    let s = chars_of(path);
    let mut out: Vec<i64> = Vec::new();
    if s.len() > 0 && s[0] == '/' {
        out.push(-1);
        out.push(1);
    }
    assert(path_key(s@) =~= out@ + key_at(s@, 0, 0));
    let mut start: usize = 0;
    let mut i: usize = 0;
    while i < s.len()
        invariant
            start <= i <= s.len(),
            s@ == path@,
            path_key(s@) == out@ + key_at(s@, start as int, i as int),
        decreases s.len() - i,
    {
        if s[i] == '/' {
            let ghost before = out@;
            push_piece(&mut out, &s, start, i);
            assert(before + (piece_key(s@.subrange(start as int, i as int), start == 0) + key_at(
                s@,
                i + 1,
                i + 1,
            )) =~= out@ + key_at(s@, i + 1, i + 1));
            start = i + 1;
        }
        i = i + 1;
    }
    let ghost before = out@;
    push_piece(&mut out, &s, start, i);
    out
}

/// Puts two paths in order, component by component.
pub fn path_order(a: &str, b: &str) -> (r: TextOrder)
    ensures
        match r {
            TextOrder::Before => path_lt(a@, b@),
            TextOrder::Same => same_path(a@, b@),
            TextOrder::After => path_lt(b@, a@),
        },
{
    let x = path_key_of(a);
    let y = path_key_of(b);
    key_order(&x, &y)
}

/// What is left of a path behind the root that it starts with, without
/// the `/` that parts the two. `None` for a path that is not below the
/// root. Every path is below the empty root.
pub open spec fn strip_root(path: Seq<char>, root: Seq<char>) -> Option<Seq<char>> {
    if root.len() <= path.len() && path.subrange(0, root.len() as int) == root {
        let rest = path.subrange(root.len() as int, path.len() as int);
        if rest.len() == 0 || root.len() == 0 || root.last() == '/' {
            Some(rest)
        } else if rest[0] == '/' {
            Some(rest.subrange(1, rest.len() as int))
        } else {
            None
        }
    } else {
        None
    }
}

/// The index of the last `/` before `n`, or `-1`.
pub open spec fn last_slash(path: Seq<char>, n: int) -> int
    decreases n,
{
    if n <= 0 {
        -1
    } else if path[n - 1] == '/' {
        n - 1
    } else {
        last_slash(path, n - 1)
    }
}

/// The directory of a file: the path up to its last `/`, and the empty
/// path where it has none. The empty path has no directory.
pub open spec fn parent_of(path: Seq<char>) -> Option<Seq<char>> {
    if path.len() == 0 {
        None
    } else {
        let i = last_slash(path, path.len() as int);
        if i < 0 {
            Some(Seq::empty())
        } else {
            Some(path.subrange(0, i))
        }
    }
}

/// The path of a member in the workspace: the directory of its manifest,
/// from the root of the workspace on.
pub open spec fn workspace_path_of(root: Seq<char>, manifest_path: Seq<char>) -> Option<Seq<char>> {
    match strip_root(manifest_path, root) {
        Some(rel) => parent_of(rel),
        None => None,
    }
}

proof fn lemma_last_slash_bounds(path: Seq<char>, n: int)
    requires
        0 <= n <= path.len(),
    ensures
        -1 <= last_slash(path, n) < n || (n == 0 && last_slash(path, n) == -1),
    decreases n,
{
    if n > 0 && path[n - 1] != '/' {
        lemma_last_slash_bounds(path, n - 1);
    }
}

/// Computes the path of a member in the workspace.
#[verifier::loop_isolation(false)]
pub fn workspace_path(root: &str, manifest_path: &str) -> (r: Option<String>)
    ensures
        match r {
            Some(p) => workspace_path_of(root@, manifest_path@) == Some(p@),
            None => workspace_path_of(root@, manifest_path@) is None,
        },
{
    let base = chars_of(root);
    let path = chars_of(manifest_path);
    if base.len() > path.len() {
        return None;
    }
    let mut i: usize = 0;
    while i < base.len()
        invariant
            i <= base.len() <= path.len(),
            forall|k: int| 0 <= k < i ==> path[k] == base[k],
        decreases base.len() - i,
    {
        if path[i] != base[i] {
            assert(path@.subrange(0, base@.len() as int)[i as int] != base@[i as int]);
            return None;
        }
        i = i + 1;
    }
    assert(path@.subrange(0, base@.len() as int) =~= base@);
    let ghost rest = path@.subrange(base@.len() as int, path@.len() as int);
    let mut start: usize = base.len();
    if start < path.len() {
        assert(rest[0] == path@[start as int]);
        if base.len() == 0 || base[base.len() - 1] == '/' {
        } else if path[start] == '/' {
            start = start + 1;
        } else {
            return None;
        }
    }
    let ghost rel = path@.subrange(start as int, path@.len() as int);
    assert(strip_root(path@, base@) == Some(rel)) by {
        if base@.len() < path@.len() && !(base@.len() == 0 || base@.last() == '/') {
            assert(rest.subrange(1, rest.len() as int) =~= rel);
        } else {
            assert(rest =~= rel);
        }
    }
    if start == path.len() {
        return None;
    }
    let mut n: usize = path.len();
    while n > start && path[n - 1] != '/'
        invariant
            start <= n <= path.len(),
            rel == path@.subrange(start as int, path@.len() as int),
            last_slash(rel, rel.len() as int) == last_slash(rel, n - start),
        decreases n,
    {
        assert(rel[n - 1 - start] == path@[n - 1]);
        n = n - 1;
    }
    if n == start {
        let r = string_of_range(&path, start, start);
        assert(r@ =~= Seq::<char>::empty());
        Some(r)
    } else {
        assert(rel[n - 1 - start] == path@[n - 1]);
        let r = string_of_range(&path, start, n - 1);
        assert(r@ =~= rel.subrange(0, n - 1 - start));
        Some(r)
    }
}

/// Information about a workspace.
#[derive(Clone, Debug, PartialEq, Eq)]
pub struct Workspace {
    pub(crate) root: String,
    // Sorted by path.
    pub(crate) members_by_path: Vec<(String, PackageId)>,
}

/// The model of a [`Workspace`]: its root, and its members by path, each
/// with the identifier of its package.
pub struct WorkspaceView {
    pub root: Seq<char>,
    pub members: Seq<(Seq<char>, Seq<char>)>,
}

/// The models of the members of a workspace.
pub open spec fn members_view(v: Seq<(String, PackageId)>) -> Seq<(Seq<char>, Seq<char>)> {
    Seq::new(v.len(), |i: int| (v[i].0@, v[i].1@))
}

/// Whether members come in the order of their paths, component by
/// component, no path twice.
pub open spec fn sorted_by_path(members: Seq<(Seq<char>, Seq<char>)>) -> bool {
    forall|i: int, j: int|
        0 <= i < j < members.len() ==> path_lt((#[trigger] members[i]).0, (#[trigger] members[j]).0)
}

impl View for Workspace {
    type V = WorkspaceView;

    closed spec fn view(&self) -> WorkspaceView {
        WorkspaceView { root: self.root@, members: members_view(self.members_by_path@) }
    }
}

impl Workspace {
    /// A workspace without members.
    pub(crate) fn new(root: String) -> (r: Workspace)
        ensures
            r@.root == root@,
            r@.members == Seq::<(Seq<char>, Seq<char>)>::empty(),
    {
        let r = Workspace { root, members_by_path: Vec::new() };
        assert(r@.members =~= Seq::empty());
        r
    }

    /// Puts a member at its place in the order of the paths. Where a
    /// member is at the same path, nothing changes and `false` comes back.
    pub(crate) fn insert(&mut self, path: String, id: PackageId) -> (r: bool)
        requires
            sorted_by_path(old(self)@.members),
        ensures
            final(self)@.root == old(self)@.root,
            r ==> {
                &&& sorted_by_path(final(self)@.members)
                &&& final(self)@.members.len() == old(self)@.members.len() + 1
                &&& forall|m: (Seq<char>, Seq<char>)| #[trigger]
                    final(self)@.members.contains(m) <==> (old(self)@.members.contains(m) || m == (
                        path@,
                        id@,
                    ))
                &&& forall|i: int|
                    0 <= i < old(self)@.members.len() ==> !same_path(
                        (#[trigger] old(self)@.members[i]).0,
                        path@,
                    )
            },
            !r ==> final(self)@ == old(self)@ && exists|i: int|
                0 <= i < old(self)@.members.len() && same_path(
                    (#[trigger] old(self)@.members[i]).0,
                    path@,
                ),
    {
        let ghost before = self@.members;
        let mut pos: usize = 0;
        let mut found = false;
        while !found && pos < self.members_by_path.len()
            invariant
                pos <= self.members_by_path.len(),
                self@.members == before,
                *self == *old(self),
                forall|i: int| 0 <= i < pos ==> path_lt((#[trigger] before[i]).0, path@),
                found ==> pos < before.len() && path_lt(path@, before[pos as int].0),
            decreases self.members_by_path.len() - pos + if found { 0int } else { 1int },
        {
            match path_order(self.members_by_path[pos].0.as_str(), path.as_str()) {
                TextOrder::Before => {
                    assert(before[pos as int].0 == self.members_by_path[pos as int].0@);
                    pos = pos + 1;
                },
                TextOrder::Same => {
                    assert(before[pos as int].0 == self.members_by_path[pos as int].0@);
                    assert(same_path(before[pos as int].0, path@));
                    return false;
                },
                TextOrder::After => {
                    assert(before[pos as int].0 == self.members_by_path[pos as int].0@);
                    found = true;
                },
            }
        }
        assert(pos < before.len() ==> path_lt(path@, before[pos as int].0));
        self.members_by_path.insert(pos, (path, id));
        let ghost after = self@.members;
        assert(after =~= before.insert(pos as int, (path@, id@)));
        assert forall|i: int, j: int| 0 <= i < j < after.len() implies path_lt(
            (#[trigger] after[i]).0,
            (#[trigger] after[j]).0,
        ) by {
            if j < pos {
                assert(after[i] == before[i] && after[j] == before[j]);
            } else if j == pos {
                assert(after[i] == before[i]);
            } else if i < pos {
                assert(after[i] == before[i] && after[j] == before[j - 1]);
                if j - 1 > pos {
                    assert(path_lt(before[pos as int].0, before[j - 1].0));
                }
                lemma_path_lt_transitive(before[i].0, path@, before[pos as int].0);
                if j - 1 > pos {
                    lemma_path_lt_transitive(before[i].0, before[pos as int].0, before[j - 1].0);
                }
            } else if i == pos {
                assert(after[j] == before[j - 1]);
                if j - 1 > pos {
                    lemma_path_lt_transitive(path@, before[pos as int].0, before[j - 1].0);
                }
            } else {
                assert(after[i] == before[i - 1] && after[j] == before[j - 1]);
            }
        }
        assert forall|m: (Seq<char>, Seq<char>)| #[trigger]
            after.contains(m) <==> (before.contains(m) || m == (path@, id@)) by {
            if after.contains(m) {
                let i = choose|i: int| 0 <= i < after.len() && after[i] == m;
                if i < pos {
                    assert(before[i] == m);
                } else if i > pos {
                    assert(before[i - 1] == m);
                }
            }
            if before.contains(m) {
                let i = choose|i: int| 0 <= i < before.len() && before[i] == m;
                if i < pos {
                    assert(after[i] == m);
                } else {
                    assert(after[i + 1] == m);
                }
            }
            assert(after[pos as int] == (path@, id@));
        }
        assert forall|i: int| 0 <= i < before.len() implies !same_path(
            (#[trigger] before[i]).0,
            path@,
        ) by {
            if i > pos {
                lemma_path_lt_transitive(path@, before[pos as int].0, before[i].0);
            }
            lemma_path_lt_differs(before[i].0, path@);
        }
        true
    }

    /// Returns the workspace root.
    pub fn root(&self) -> (r: &str)
        ensures
            r@ == self@.root,
    {
        self.root.as_str()
    }

    /// Returns the workspace paths and members, sorted by the path they're in.
    pub fn members(&self) -> (r: &Vec<(String, PackageId)>)
        ensures
            members_view(r@) == self@.members,
    {
        &self.members_by_path
    }

    /// Returns the package IDs for workspace members, in the same order as
    /// `members`: sorted by the path they're in.
    pub fn member_ids(&self) -> (r: Vec<&PackageId>)
        ensures
            r.len() == self@.members.len(),
            forall|i: int| 0 <= i < r.len() ==> (#[trigger] r[i])@ == self@.members[i].1,
    {
        let mut ids: Vec<&PackageId> = Vec::new();
        let mut i: usize = 0;
        while i < self.members_by_path.len()
            invariant
                i <= self.members_by_path.len(),
                ids.len() == i,
                forall|k: int| 0 <= k < i ==> (#[trigger] ids[k])@ == self@.members[k].1,
            decreases self.members_by_path.len() - i,
        {
            ids.push(&self.members_by_path[i].1);
            i = i + 1;
        }
        ids
    }

    /// Maps the given path to the corresponding workspace member: the
    /// one at the same path, whatever the two have of repeated slashes.
    pub fn member_by_path(&self, path: &str) -> (r: Option<&PackageId>)
        ensures
            match r {
                Some(id) => exists|i: int|
                    0 <= i < self@.members.len() && same_path(
                        (#[trigger] self@.members[i]).0,
                        path@,
                    ) && self@.members[i].1 == id@,
                None => forall|i: int|
                    0 <= i < self@.members.len() ==> !same_path(
                        (#[trigger] self@.members[i]).0,
                        path@,
                    ),
            },
    {
        let mut i: usize = 0;
        while i < self.members_by_path.len()
            invariant
                i <= self.members_by_path.len(),
                forall|k: int| 0 <= k < i ==> !same_path((#[trigger] self@.members[k]).0, path@),
            decreases self.members_by_path.len() - i,
        {
            match path_order(self.members_by_path[i].0.as_str(), path) {
                TextOrder::Same => {
                    assert(self@.members[i as int] == (
                        self.members_by_path[i as int].0@,
                        self.members_by_path[i as int].1@,
                    ));
                    return Some(&self.members_by_path[i].1);
                },
                _ => {
                    assert(self@.members[i as int].0 == self.members_by_path[i as int].0@);
                    proof {
                        lemma_path_lt_differs(self@.members[i as int].0, path@);
                    }
                },
            }
            i = i + 1;
        }
        None
    }
}

} // verus!
