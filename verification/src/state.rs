//! Read and write roots of the built-in file tools.

use vstd::prelude::*;

use crate::common::{duplicate_all, lemma_views_push, views, Duplicate};
use crate::path::{same_path, starts_with, FilePath, Part};
use crate::text::{first_position, lemma_first_position, lemma_first_position_unique};

verus! {

broadcast use lemma_views_push;

/// The directories that file tools may read and write. Write roots are readable too.
#[derive(Debug, PartialEq, Eq)]
pub struct AgentState {
    read_roots: Vec<FilePath>,
    write_roots: Vec<FilePath>,
}

/// The model of an [`AgentState`].
pub struct RootsView {
    pub read: Seq<Seq<Part>>,
    pub write: Seq<Seq<Part>>,
}

impl View for AgentState {
    type V = RootsView;

    closed spec fn view(&self) -> RootsView {
        RootsView { read: views(self.read_roots@), write: views(self.write_roots@) }
    }
}

/// `paths` with `path` among them.
pub open spec fn with_path(paths: Seq<Seq<Part>>, path: Seq<Part>) -> Seq<Seq<Part>> {
    if paths.contains(path) {
        paths
    } else {
        paths.push(path)
    }
}

/// `paths` with all of `more` among them, in order, each once.
pub open spec fn with_paths(paths: Seq<Seq<Part>>, more: Seq<Seq<Part>>) -> Seq<Seq<Part>>
    decreases more.len(),
{
    if more.len() == 0 {
        paths
    } else {
        with_path(with_paths(paths, more.drop_last()), more.last())
    }
}

/// Whether `path` is one of `roots` or lies below one.
pub open spec fn under_any(path: Seq<Part>, roots: Seq<Seq<Part>>) -> bool {
    exists|i: int| 0 <= i < roots.len() && (#[trigger] roots[i]).is_prefix_of(path)
}

/// The roots for normalized read and write roots.
pub open spec fn roots_for(read: Seq<Seq<Part>>, write: Seq<Seq<Part>>) -> RootsView {
    let write_roots = with_paths(seq![], write);
    RootsView { read: with_paths(with_paths(seq![], read), write_roots), write: write_roots }
}

fn push_unique(paths: &mut Vec<FilePath>, path: FilePath)
    ensures
        views(final(paths)@) == with_path(views(old(paths)@), path@),
{
    let mut i: usize = 0;
    while i < paths.len()
        invariant
            i <= paths@.len(),
            *paths == *old(paths),
            forall|j: int| 0 <= j < i ==> views(paths@)[j] != path@,
        decreases paths@.len() - i,
    {
        if same_path(&paths[i], &path) {
            assert(views(paths@)[i as int] == path@);
            return;
        }
        i += 1;
    }
    assert(!views(paths@).contains(path@));
    paths.push(path);
}

fn push_all_unique(paths: &mut Vec<FilePath>, more: &Vec<FilePath>)
    ensures
        views(final(paths)@) == with_paths(views(old(paths)@), views(more@)),
{
    let ghost start = views(paths@);
    let ghost all = views(more@);
    let mut i: usize = 0;
    while i < more.len()
        invariant
            i <= more@.len(),
            all == views(more@),
            views(paths@) == with_paths(start, all.take(i as int)),
        decreases more@.len() - i,
    {
        proof {
            assert(all.take(i + 1).drop_last() =~= all.take(i as int));
            assert(all.take(i + 1).last() == more@[i as int]@);
        }
        push_unique(paths, more[i].duplicate());
        i += 1;
    }
    assert(all.take(i as int) =~= all);
}

fn is_under_any_root(path: &FilePath, roots: &Vec<FilePath>) -> (b: bool)
    ensures
        b == under_any(path@, views(roots@)),
{
    let mut i: usize = 0;
    while i < roots.len()
        invariant
            i <= roots@.len(),
            forall|j: int| 0 <= j < i ==> !(#[trigger] views(roots@)[j]).is_prefix_of(path@),
        decreases roots@.len() - i,
    {
        if starts_with(path, &roots[i]) {
            assert(views(roots@)[i as int].is_prefix_of(path@));
            return true;
        }
        i += 1;
    }
    false
}

impl Default for AgentState {
    fn default() -> (state: Self)
        ensures
            state@ == (RootsView { read: seq![], write: seq![] }),
    {
        let state = AgentState { read_roots: Vec::new(), write_roots: Vec::new() };
        assert(state@.read =~= seq![]);
        assert(state@.write =~= seq![]);
        state
    }
}

impl Duplicate for AgentState {
    fn duplicate(&self) -> (copy: Self) {
        AgentState {
            read_roots: duplicate_all(&self.read_roots),
            write_roots: duplicate_all(&self.write_roots),
        }
    }
}

impl Clone for AgentState {
    fn clone(&self) -> (copy: Self)
        ensures
            copy@ == self@,
    {
        self.duplicate()
    }
}

impl AgentState {
    /// Roots from normalized paths.
    pub fn new(read_roots: &Vec<FilePath>, write_roots: &Vec<FilePath>) -> (state: Self)
        ensures
            state@ == roots_for(views(read_roots@), views(write_roots@)),
    {
        let mut read: Vec<FilePath> = Vec::new();
        let mut write: Vec<FilePath> = Vec::new();
        assert(views(read@) =~= seq![]);
        assert(views(write@) =~= seq![]);
        push_all_unique(&mut read, read_roots);
        push_all_unique(&mut write, write_roots);
        push_all_unique(&mut read, &write);
        AgentState { read_roots: read, write_roots: write }
    }

    /// Directories that may be read.
    pub fn read_roots(&self) -> (roots: &Vec<FilePath>)
        ensures
            views(roots@) == self@.read,
    {
        &self.read_roots
    }

    /// Directories that may be written.
    pub fn write_roots(&self) -> (roots: &Vec<FilePath>)
        ensures
            views(roots@) == self@.write,
    {
        &self.write_roots
    }

    /// Whether a normalized path may be read.
    pub fn can_read(&self, path: &FilePath) -> (b: bool)
        ensures
            b == under_any(path@, self@.read),
    {
        is_under_any_root(path, &self.read_roots)
    }

    /// Whether a normalized path may be written.
    pub fn can_write(&self, path: &FilePath) -> (b: bool)
        ensures
            b == under_any(path@, self@.write),
    {
        is_under_any_root(path, &self.write_roots)
    }

    /// A normalized path, where it may be read.
    pub fn readable_path(&self, path: FilePath) -> (r: Option<FilePath>)
        ensures
            match r {
                Some(p) => p@ == path@ && under_any(path@, self@.read),
                None => !under_any(path@, self@.read),
            },
    {
        if self.can_read(&path) {
            Some(path)
        } else {
            None
        }
    }

    /// A normalized path, where it may be written.
    pub fn writable_path(&self, path: FilePath) -> (r: Option<FilePath>)
        ensures
            match r {
                Some(p) => p@ == path@ && under_any(path@, self@.write),
                None => !under_any(path@, self@.write),
            },
    {
        if self.can_write(&path) {
            Some(path)
        } else {
            None
        }
    }
}

// ---------------------------------------------------------------------------------------------
// Laws
// ---------------------------------------------------------------------------------------------

proof fn lemma_with_paths_contains(paths: Seq<Seq<Part>>, more: Seq<Seq<Part>>, p: Seq<Part>)
    ensures
        with_paths(paths, more).contains(p) == (paths.contains(p) || more.contains(p)),
    decreases more.len(),
{
    if more.len() > 0 {
        let front = more.drop_last();
        lemma_with_paths_contains(paths, front, p);
        let before = with_paths(paths, front);
        let last = more.last();
        assert(more =~= front.push(last));
        assert(more.contains(p) == (front.contains(p) || p == last)) by {
            if more.contains(p) {
                let i = choose|i: int| 0 <= i < more.len() && more[i] == p;
                if i < front.len() {
                    assert(front[i] == p);
                }
            }
            if front.contains(p) {
                let i = choose|i: int| 0 <= i < front.len() && front[i] == p;
                assert(more[i] == p);
            }
            if p == last {
                assert(more[more.len() - 1] == p);
            }
        }
        if !before.contains(last) {
            let after = before.push(last);
            if before.contains(p) {
                let i = choose|i: int| 0 <= i < before.len() && before[i] == p;
                assert(after[i] == p);
            }
            if p == last {
                assert(after[before.len() as int] == p);
            }
            if after.contains(p) {
                let i = choose|i: int| 0 <= i < after.len() && after[i] == p;
                if i < before.len() {
                    assert(before[i] == p);
                }
            }
        }
    }
}

/// What may be written may be read.
pub proof fn write_roots_are_readable(
    read: Seq<Seq<Part>>,
    write: Seq<Seq<Part>>,
    path: Seq<Part>,
)
    requires
        under_any(path, roots_for(read, write).write),
    ensures
        under_any(path, roots_for(read, write).read),
{
    let roots = roots_for(read, write);
    let i = choose|i: int|
        0 <= i < roots.write.len() && (#[trigger] roots.write[i]).is_prefix_of(path);
    let root = roots.write[i];
    assert(roots.write.contains(root));
    lemma_with_paths_contains(with_paths(seq![], read), roots.write, root);
    let j = choose|j: int| 0 <= j < roots.read.len() && roots.read[j] == root;
    assert(roots.read[j].is_prefix_of(path));
}

/// Reading and writing are allowed exactly at and below the given roots.
pub proof fn only_the_given_roots_count(
    read: Seq<Seq<Part>>,
    write: Seq<Seq<Part>>,
    path: Seq<Part>,
)
    ensures
        under_any(path, roots_for(read, write).write) == under_any(path, write),
        under_any(path, roots_for(read, write).read) == (under_any(path, read) || under_any(
            path,
            write,
        )),
{
    let roots = roots_for(read, write);
    assert forall|p: Seq<Part>| #[trigger] roots.write.contains(p) == write.contains(p) by {
        lemma_with_paths_contains(seq![], write, p);
    }
    assert forall|p: Seq<Part>| #[trigger]
        roots.read.contains(p) == (read.contains(p) || write.contains(p)) by {
        lemma_with_paths_contains(seq![], read, p);
        lemma_with_paths_contains(seq![], write, p);
        lemma_with_paths_contains(with_paths(seq![], read), roots.write, p);
    }
    lemma_under_any(path, roots.write);
    lemma_under_any(path, write);
    lemma_under_any(path, read);
    lemma_under_any(path, roots.read);
    if under_any(path, roots.write) {
        let p = choose|p: Seq<Part>| #[trigger] roots.write.contains(p) && p.is_prefix_of(path);
        assert(write.contains(p));
    }
    if under_any(path, write) {
        let p = choose|p: Seq<Part>| #[trigger] write.contains(p) && p.is_prefix_of(path);
        assert(roots.write.contains(p));
        assert(roots.read.contains(p));
    }
    if under_any(path, read) {
        let p = choose|p: Seq<Part>| #[trigger] read.contains(p) && p.is_prefix_of(path);
        assert(roots.read.contains(p));
    }
    if under_any(path, roots.read) {
        let p = choose|p: Seq<Part>| #[trigger] roots.read.contains(p) && p.is_prefix_of(path);
        assert(read.contains(p) || write.contains(p));
    }
}

proof fn lemma_under_any(path: Seq<Part>, roots: Seq<Seq<Part>>)
    ensures
        under_any(path, roots) == (exists|p: Seq<Part>| #[trigger]
            roots.contains(p) && p.is_prefix_of(path)),
{
    if under_any(path, roots) {
        let i = choose|i: int| 0 <= i < roots.len() && (#[trigger] roots[i]).is_prefix_of(path);
        assert(roots.contains(roots[i]));
    }
    if exists|p: Seq<Part>| #[trigger] roots.contains(p) && p.is_prefix_of(path) {
        let p = choose|p: Seq<Part>| #[trigger] roots.contains(p) && p.is_prefix_of(path);
        let i = choose|i: int| 0 <= i < roots.len() && roots[i] == p;
        assert(roots[i].is_prefix_of(path));
    }
}

/// A sibling whose name merely begins like a root's is not below the root.
pub proof fn siblings_are_not_below_a_root(parent: Seq<Part>, a: Seq<char>, b: Seq<char>, rest: Seq<Part>)
    requires
        a != b,
    ensures
        !under_any(
            parent.push(Part::Normal(b)) + rest,
            seq![parent.push(Part::Normal(a))],
        ),
{
    let root = parent.push(Part::Normal(a));
    let path = parent.push(Part::Normal(b)) + rest;
    let roots = seq![root];
    assert forall|i: int| 0 <= i < roots.len() implies !(#[trigger] roots[i]).is_prefix_of(
        path,
    ) by {
        assert(path[parent.len() as int] == Part::Normal(b));
        assert(root[parent.len() as int] == Part::Normal(a));
        assert(path.take(root.len() as int)[parent.len() as int] == Part::Normal(b));
    }
}

/// Whether `kept` holds each of `given` once, in the order in which they first appear.
pub open spec fn first_of_each(kept: Seq<Seq<Part>>, given: Seq<Seq<Part>>) -> bool {
    &&& forall|p: Seq<Part>| #[trigger] kept.contains(p) == given.contains(p)
    &&& forall|i: int, j: int|
        0 <= i < j < kept.len() ==> #[trigger] kept[i] != #[trigger] kept[j] && first_position(
            given,
            kept[i],
        ) < first_position(given, kept[j])
}

proof fn lemma_position_in_front(given: Seq<Seq<Part>>, p: Seq<Part>)
    requires
        given.len() > 0,
    ensures
        given.drop_last().contains(p) ==> first_position(given, p) == first_position(
            given.drop_last(),
            p,
        ) < given.len() - 1,
        !given.drop_last().contains(p) && given.last() == p ==> first_position(given, p)
            == given.len() - 1,
{
    let front = given.drop_last();
    let n = first_position(front, p);
    lemma_first_position(front, p);
    if front.contains(p) {
        let k = choose|k: int| 0 <= k < front.len() && front[k] == p;
        assert(n < front.len()) by {
            if n == front.len() {
                assert(front[k] != p);
            }
        }
        assert forall|i: int| 0 <= i < n implies given[i] != p by {
            assert(front[i] != p);
        }
        assert(given[n] == front[n]);
        lemma_first_position_unique(given, p, n);
    } else if given.last() == p {
        assert forall|i: int| 0 <= i < given.len() - 1 implies given[i] != p by {
            assert(front[i] == given[i]);
        }
        lemma_first_position_unique(given, p, given.len() - 1);
    }
}

proof fn lemma_first_of_each(given: Seq<Seq<Part>>)
    ensures
        first_of_each(with_paths(seq![], given), given),
    decreases given.len(),
{
    let kept = with_paths(seq![], given);
    assert forall|p: Seq<Part>| #[trigger] kept.contains(p) == given.contains(p) by {
        lemma_with_paths_contains(seq![], given, p);
    }
    if given.len() > 0 {
        let front = given.drop_last();
        let before = with_paths(seq![], front);
        lemma_first_of_each(front);
        assert forall|i: int, j: int| 0 <= i < j < kept.len() implies #[trigger] kept[i]
            != #[trigger] kept[j] && first_position(given, kept[i]) < first_position(
            given,
            kept[j],
        ) by {
            assert(before[i] == kept[i]);
            assert(before.contains(kept[i]));
            lemma_position_in_front(given, kept[i]);
            lemma_position_in_front(given, kept[j]);
            if j < before.len() {
                assert(before[j] == kept[j]);
                assert(before.contains(kept[j]));
            } else {
                assert(kept[j] == given.last());
                assert(!before.contains(kept[j]));
                assert(!front.contains(kept[j]));
            }
        }
    }
}

proof fn lemma_with_paths_concat(paths: Seq<Seq<Part>>, a: Seq<Seq<Part>>, b: Seq<Seq<Part>>)
    ensures
        with_paths(paths, a + b) == with_paths(with_paths(paths, a), b),
    decreases b.len(),
{
    if b.len() == 0 {
        assert(a + b =~= a);
    } else {
        assert((a + b).drop_last() =~= a + b.drop_last());
        lemma_with_paths_concat(paths, a, b.drop_last());
    }
}

proof fn lemma_with_unique_paths(paths: Seq<Seq<Part>>, more: Seq<Seq<Part>>)
    ensures
        with_paths(paths, with_paths(seq![], more)) == with_paths(paths, more),
    decreases more.len(),
{
    if more.len() > 0 {
        let front = more.drop_last();
        let last = more.last();
        let unique = with_paths(seq![], front);
        lemma_with_unique_paths(paths, front);
        if unique.contains(last) {
            lemma_with_paths_contains(seq![], front, last);
            lemma_with_paths_contains(paths, front, last);
        } else {
            assert(unique.push(last).drop_last() =~= unique);
        }
    }
}

/// Roots are unique, and stand in the order in which they first appear among those that were
/// given, read roots before write roots.
pub proof fn roots_are_unique_and_in_order(read: Seq<Seq<Part>>, write: Seq<Seq<Part>>)
    ensures
        first_of_each(roots_for(read, write).write, write),
        first_of_each(roots_for(read, write).read, read + write),
{
    lemma_first_of_each(write);
    lemma_first_of_each(read + write);
    lemma_with_paths_concat(seq![], read, write);
    lemma_with_unique_paths(with_paths(seq![], read), write);
}

} // verus!
