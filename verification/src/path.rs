//! File paths as lists of components.

use vstd::prelude::*;

use crate::common::{duplicate_all, lemma_views_push, views, Duplicate};
use crate::text::{concat2, same_text, strip_prefix, to_chars};

verus! {

broadcast use lemma_views_push;

/// One component of a path.
#[derive(Debug, PartialEq, Eq)]
pub enum PathComponent {
    /// A drive or share, on systems that have them.
    Prefix(String),
    /// The root directory.
    Root,
    /// The directory itself.
    Current,
    /// The parent directory.
    Parent,
    /// A name.
    Normal(String),
}

/// A path.
#[derive(Debug, PartialEq, Eq)]
pub struct FilePath {
    pub parts: Vec<PathComponent>,
}

/// The model of a [`PathComponent`].
pub enum Part {
    Prefix(Seq<char>),
    Root,
    Current,
    Parent,
    Normal(Seq<char>),
}

impl View for PathComponent {
    type V = Part;

    open spec fn view(&self) -> Part {
        match self {
            PathComponent::Prefix(text) => Part::Prefix(text@),
            PathComponent::Root => Part::Root,
            PathComponent::Current => Part::Current,
            PathComponent::Parent => Part::Parent,
            PathComponent::Normal(name) => Part::Normal(name@),
        }
    }
}

impl View for FilePath {
    type V = Seq<Part>;

    open spec fn view(&self) -> Seq<Part> {
        views(self.parts@)
    }
}

impl Duplicate for PathComponent {
    fn duplicate(&self) -> (copy: Self) {
        match self {
            PathComponent::Prefix(text) => PathComponent::Prefix(text.clone()),
            PathComponent::Root => PathComponent::Root,
            PathComponent::Current => PathComponent::Current,
            PathComponent::Parent => PathComponent::Parent,
            PathComponent::Normal(name) => PathComponent::Normal(name.clone()),
        }
    }
}

impl Duplicate for FilePath {
    fn duplicate(&self) -> (copy: Self) {
        FilePath { parts: duplicate_all(&self.parts) }
    }
}

impl Clone for PathComponent {
    fn clone(&self) -> (copy: Self)
        ensures
            copy@ == self@,
    {
        self.duplicate()
    }
}

impl Clone for FilePath {
    fn clone(&self) -> (copy: Self)
        ensures
            copy@ == self@,
    {
        self.duplicate()
    }
}

// ---------------------------------------------------------------------------------------------
// Comparison
// ---------------------------------------------------------------------------------------------

/// Whether two components are the same.
pub fn same_part(a: &PathComponent, b: &PathComponent) -> (same: bool)
    ensures
        same == (a@ == b@),
{
    match (a, b) {
        (PathComponent::Prefix(a), PathComponent::Prefix(b)) => same_text(a.as_str(), b.as_str()),
        (PathComponent::Root, PathComponent::Root) => true,
        (PathComponent::Current, PathComponent::Current) => true,
        (PathComponent::Parent, PathComponent::Parent) => true,
        (PathComponent::Normal(a), PathComponent::Normal(b)) => same_text(a.as_str(), b.as_str()),
        _ => false,
    }
}

/// Whether `path` is `root` or lies below it.
pub fn starts_with(path: &FilePath, root: &FilePath) -> (b: bool)
    ensures
        b == root@.is_prefix_of(path@),
{
    if root.parts.len() > path.parts.len() {
        return false;
    }
    let mut i: usize = 0;
    while i < root.parts.len()
        invariant
            i <= root.parts@.len() <= path.parts@.len(),
            forall|j: int| 0 <= j < i ==> path@[j] == root@[j],
        decreases root.parts@.len() - i,
    {
        if !same_part(&path.parts[i], &root.parts[i]) {
            assert(path@[i as int] != root@[i as int]);
            assert(path@.take(root@.len() as int)[i as int] == path@[i as int]);
            return false;
        }
        assert(path@[i as int] == root@[i as int]);
        i += 1;
    }
    assert(path@.take(root@.len() as int) =~= root@);
    true
}

/// Whether two paths are the same.
pub fn same_path(a: &FilePath, b: &FilePath) -> (same: bool)
    ensures
        same == (a@ == b@),
{
    if a.parts.len() != b.parts.len() {
        return false;
    }
    let same = starts_with(a, b);
    proof {
        assert(a@.take(b@.len() as int) =~= a@);
    }
    same
}

/// The rank of a component's kind.
pub open spec fn part_rank(part: Part) -> int {
    match part {
        Part::Prefix(_) => 0,
        Part::Root => 1,
        Part::Current => 2,
        Part::Parent => 3,
        Part::Normal(_) => 4,
    }
}

/// The text of a component.
pub open spec fn part_text(part: Part) -> Seq<char> {
    match part {
        Part::Prefix(text) => text,
        Part::Normal(name) => name,
        _ => seq![],
    }
}

/// Whether `a` stands before `b` in the dictionary.
pub open spec fn text_before(a: Seq<char>, b: Seq<char>) -> bool
    decreases a.len(),
{
    if b.len() == 0 {
        false
    } else if a.len() == 0 {
        true
    } else if a[0] == b[0] {
        text_before(a.drop_first(), b.drop_first())
    } else {
        a[0] < b[0]
    }
}

/// Whether component `a` stands before `b`.
pub open spec fn part_before(a: Part, b: Part) -> bool {
    if part_rank(a) == part_rank(b) {
        text_before(part_text(a), part_text(b))
    } else {
        part_rank(a) < part_rank(b)
    }
}

/// Whether path `a` stands before `b`: component by component.
pub open spec fn path_before(a: Seq<Part>, b: Seq<Part>) -> bool
    decreases a.len(),
{
    if b.len() == 0 {
        false
    } else if a.len() == 0 {
        true
    } else if a[0] == b[0] {
        path_before(a.drop_first(), b.drop_first())
    } else {
        part_before(a[0], b[0])
    }
}

fn text_comes_before(a: &str, b: &str) -> (r: bool)
    ensures
        r == text_before(a@, b@),
{
    let x = to_chars(a);
    let y = to_chars(b);
    let mut i: usize = 0;
    assert(x@.skip(0) =~= x@);
    assert(y@.skip(0) =~= y@);
    while i < x.len() && i < y.len() && x[i] == y[i]
        invariant
            i <= x@.len(),
            i <= y@.len(),
            x@ == a@,
            y@ == b@,
            text_before(x@.skip(i as int), y@.skip(i as int)) == text_before(a@, b@),
        decreases x@.len() - i,
    {
        proof {
            assert(x@.skip(i as int).drop_first() =~= x@.skip(i + 1));
            assert(y@.skip(i as int).drop_first() =~= y@.skip(i + 1));
        }
        i += 1;
    }
    if i >= y.len() {
        false
    } else if i >= x.len() {
        true
    } else {
        x[i] < y[i]
    }
}

fn rank_of(part: &PathComponent) -> (rank: u8)
    ensures
        rank == part_rank(part@),
{
    match part {
        PathComponent::Prefix(_) => 0,
        PathComponent::Root => 1,
        PathComponent::Current => 2,
        PathComponent::Parent => 3,
        PathComponent::Normal(_) => 4,
    }
}

fn text_of_part(part: &PathComponent) -> (text: String)
    ensures
        text@ == part_text(part@),
{
    match part {
        PathComponent::Prefix(text) => text.clone(),
        PathComponent::Normal(name) => name.clone(),
        _ => {
            let text = String::new();
            assert(text@ =~= seq![]);
            text
        },
    }
}

/// Whether path `a` stands before `b`.
pub fn path_comes_before(a: &FilePath, b: &FilePath) -> (r: bool)
    ensures
        r == path_before(a@, b@),
{
    let mut i: usize = 0;
    assert(a@.skip(0) =~= a@);
    assert(b@.skip(0) =~= b@);
    while i < a.parts.len() && i < b.parts.len() && same_part(&a.parts[i], &b.parts[i])
        invariant
            i <= a.parts@.len(),
            i <= b.parts@.len(),
            path_before(a@.skip(i as int), b@.skip(i as int)) == path_before(a@, b@),
        decreases a.parts@.len() - i,
    {
        proof {
            assert(a@.skip(i as int).drop_first() =~= a@.skip(i + 1));
            assert(b@.skip(i as int).drop_first() =~= b@.skip(i + 1));
        }
        i += 1;
    }
    if i >= b.parts.len() {
        false
    } else if i >= a.parts.len() {
        true
    } else {
        let x = rank_of(&a.parts[i]);
        let y = rank_of(&b.parts[i]);
        if x == y {
            text_comes_before(
                text_of_part(&a.parts[i]).as_str(),
                text_of_part(&b.parts[i]).as_str(),
            )
        } else {
            x < y
        }
    }
}

// ---------------------------------------------------------------------------------------------
// Normalization
// ---------------------------------------------------------------------------------------------

/// `path` without its last name.
pub open spec fn popped(path: Seq<Part>) -> Seq<Part> {
    if path.len() > 0 && path.last() is Normal {
        path.drop_last()
    } else {
        path
    }
}

/// `path` with its dots resolved, without a look at the file system.
pub open spec fn lexical(path: Seq<Part>) -> Seq<Part>
    decreases path.len(),
{
    if path.len() == 0 {
        seq![]
    } else {
        let before = lexical(path.drop_last());
        match path.last() {
            Part::Current => before,
            Part::Parent => popped(before),
            other => before.push(other),
        }
    }
}

/// Resolve the dots of a path, without a look at the file system.
pub fn normalize_lexically(path: &FilePath) -> (r: FilePath)
    ensures
        r@ == lexical(path@),
{
    let mut parts: Vec<PathComponent> = Vec::new();
    let mut i: usize = 0;
    assert(views(parts@) =~= seq![]);
    while i < path.parts.len()
        invariant
            i <= path.parts@.len(),
            views(parts@) == lexical(path@.take(i as int)),
        decreases path.parts@.len() - i,
    {
        proof {
            assert(path@.take(i + 1).drop_last() =~= path@.take(i as int));
            assert(path@.take(i + 1).last() == path.parts@[i as int]@);
        }
        match &path.parts[i] {
            PathComponent::Current => {},
            PathComponent::Parent => {
                let removable = parts.len() > 0 && match &parts[parts.len() - 1] {
                    PathComponent::Normal(_) => true,
                    _ => false,
                };
                let ghost before = views(parts@);
                if removable {
                    let _ = parts.pop();
                    assert(views(parts@) =~= before.drop_last());
                }
            },
            other => {
                let other = other.duplicate();
                parts.push(other);
            },
        }
        i += 1;
    }
    assert(path@.take(i as int) =~= path@);
    FilePath { parts }
}

/// The part of a path that is taken as it is, once the ancestor `path.take(kept)` exists: none
/// where a component that is not a name would have to be left out.
pub open spec fn names_behind(path: Seq<Part>, kept: int) -> bool {
    forall|i: int| kept <= i < path.len() ==> (#[trigger] path[i]) is Normal
}

/// Whether `kept` components lead to the nearest ancestor that exists, `exists(k)` telling whether
/// the first `k` components do.
pub open spec fn nearest_ancestor(path: Seq<Part>, exists_at: spec_fn(int) -> bool, kept: int) -> bool {
    &&& 0 <= kept <= path.len()
    &&& exists_at(kept)
    &&& names_behind(path, kept)
    &&& forall|k: int| kept < k <= path.len() ==> !#[trigger] exists_at(k)
}

/// A search for the nearest ancestor of a path that exists.
pub struct AncestorSearch {
    path: FilePath,
    kept: usize,
}

/// What a search for an ancestor has come to.
#[derive(Clone, Copy, Debug, PartialEq, Eq, Structural)]
pub enum SearchStep {
    /// Tell whether the ancestor with so many components exists.
    Probe(usize),
    /// The ancestor with so many components exists.
    Found(usize),
    /// There is none to be found.
    Exhausted,
}

/// What a search comes to, once it is known whether the first `kept` components exist.
pub open spec fn search_step(path: Seq<Part>, kept: int, exists_there: bool) -> SearchStep {
    if exists_there {
        SearchStep::Found(kept as usize)
    } else if kept > 0 && path[kept - 1] is Normal {
        SearchStep::Probe((kept - 1) as usize)
    } else {
        SearchStep::Exhausted
    }
}

/// Where a search that starts at `kept` components ends.
pub open spec fn searched(path: Seq<Part>, exists_at: spec_fn(int) -> bool, kept: int) -> Option<int>
    decreases kept,
{
    match search_step(path, kept, exists_at(kept)) {
        SearchStep::Found(_) => Some(kept),
        SearchStep::Probe(_) => searched(path, exists_at, kept - 1),
        SearchStep::Exhausted => None,
    }
}

impl AncestorSearch {
    /// The path.
    pub closed spec fn path(&self) -> Seq<Part> {
        self.path@
    }

    /// The components of the ancestor that is looked at.
    pub closed spec fn kept(&self) -> int {
        self.kept as int
    }

    /// The components behind the ancestor are names.
    pub open spec fn wf(&self) -> bool {
        0 <= self.kept() <= self.path().len() && names_behind(self.path(), self.kept())
    }

    /// Start at the path itself.
    pub fn new(path: FilePath) -> (search: Self)
        ensures
            search.wf(),
            search.path() == path@,
            search.kept() == path@.len(),
    {
        let kept = path.parts.len();
        AncestorSearch { path, kept }
    }

    /// The number of components to probe first.
    pub fn first(&self) -> (kept: usize)
        ensures
            kept == self.kept(),
    {
        self.kept
    }

    /// Go on with whether the ancestor that was probed exists.
    pub fn next(&mut self, exists_there: bool) -> (step: SearchStep)
        requires
            old(self).wf(),
        ensures
            final(self).wf(),
            final(self).path() == old(self).path(),
            step == search_step(old(self).path(), old(self).kept(), exists_there),
            final(self).kept() == (match step {
                SearchStep::Probe(kept) => kept as int,
                _ => old(self).kept(),
            }),
    {
        if exists_there {
            return SearchStep::Found(self.kept);
        }
        if self.kept == 0 {
            return SearchStep::Exhausted;
        }
        let name = match &self.path.parts[self.kept - 1] {
            PathComponent::Normal(_) => true,
            _ => false,
        };
        if !name {
            return SearchStep::Exhausted;
        }
        self.kept = self.kept - 1;
        proof {
            assert forall|i: int| self.kept() <= i < self.path().len() implies (#[trigger]
            self.path()[i]) is Normal by {
                if i > self.kept() {
                    assert(old(self).path()[i] is Normal);
                }
            }
        }
        SearchStep::Probe(self.kept)
    }
}

/// The normalized form of an absolute path that does not exist as a whole: its nearest existing
/// ancestor, canonical where that could be had, and the names behind it.
pub open spec fn below_ancestor(path: Seq<Part>, kept: int, canonical: Option<Seq<Part>>) -> Seq<
    Part,
> {
    (match canonical {
        Some(canonical) => canonical,
        None => lexical(path.take(kept)),
    }) + path.skip(kept)
}

/// The normalized form of a path whose nearest existing ancestor has `kept` components.
pub fn resolve_below(path: &FilePath, kept: usize, canonical: Option<FilePath>) -> (r: FilePath)
    requires
        kept <= path@.len(),
    ensures
        r@ == below_ancestor(path@, kept as int, crate::common::view_of(canonical)),
{
    let mut r = match canonical {
        Some(canonical) => canonical,
        None => normalize_lexically(&prefix_of(path, kept)),
    };
    let ghost base = r@;
    let mut i: usize = kept;
    assert(path@.subrange(kept as int, kept as int) =~= seq![]);
    assert(base + Seq::<Part>::empty() =~= base);
    while i < path.parts.len()
        invariant
            kept <= i <= path.parts@.len(),
            r@ == base + path@.subrange(kept as int, i as int),
        decreases path.parts@.len() - i,
    {
        let part = path.parts[i].duplicate();
        let ghost before = r@;
        r.parts.push(part);
        proof {
            assert(r@ == before.push(part@));
            assert(base + path@.subrange(kept as int, i + 1) =~= (base + path@.subrange(
                kept as int,
                i as int,
            )).push(path@[i as int]));
        }
        i += 1;
    }
    assert(path@.subrange(kept as int, i as int) =~= path@.skip(kept as int));
    r
}

/// The first `kept` components of a path.
pub fn prefix_of(path: &FilePath, kept: usize) -> (r: FilePath)
    requires
        kept <= path@.len(),
    ensures
        r@ == path@.take(kept as int),
{
    let mut parts: Vec<PathComponent> = Vec::new();
    let mut i: usize = 0;
    while i < kept
        invariant
            i <= kept <= path.parts@.len(),
            views(parts@) =~= path@.take(i as int),
        decreases kept - i,
    {
        let part = path.parts[i].duplicate();
        parts.push(part);
        proof {
            crate::common::lemma_take_push(path@, i as int);
        }
        i += 1;
    }
    FilePath { parts }
}

// ---------------------------------------------------------------------------------------------
// Display
// ---------------------------------------------------------------------------------------------

/// Whether a separator stands between two components: one behind a drive, a share or the root
/// needs none.
pub open spec fn separated(before: Part) -> bool {
    before is Current || before is Parent || before is Normal
}

/// The text of a component.
pub open spec fn component_text(part: Part, separator: char) -> Seq<char> {
    match part {
        Part::Prefix(text) => text,
        Part::Root => seq![separator],
        Part::Current => "."@,
        Part::Parent => ".."@,
        Part::Normal(name) => name,
    }
}

/// The text of a path, on a system with the separator.
pub open spec fn path_text(path: Seq<Part>, separator: char) -> Seq<char>
    decreases path.len(),
{
    if path.len() == 0 {
        seq![]
    } else {
        let front = path.drop_last();
        path_text(front, separator) + (if front.len() > 0 && separated(front.last()) {
            seq![separator]
        } else {
            seq![]
        }) + component_text(path.last(), separator)
    }
}

impl FilePath {
    /// The text of this path, on a system with the separator.
    pub fn text(&self, separator: char) -> (text: String)
        ensures
            text@ == path_text(self@, separator),
    {
        let ghost all = self@;
        let mut text = String::new();
        let mut apart = false;
        let mut i: usize = 0;
        assert(text@ =~= seq![]);
        while i < self.parts.len()
            invariant
                i <= self.parts@.len(),
                all == views(self.parts@),
                text@ == path_text(all.take(i as int), separator),
                apart == (i > 0 && separated(all[i - 1])),
            decreases self.parts@.len() - i,
        {
            let ghost before = text@;
            let ghost front = all.take(i as int);
            proof {
                assert(all.take(i + 1).drop_last() =~= front);
                assert(all.take(i + 1).last() == self.parts@[i as int]@);
                if i > 0 {
                    assert(front.last() == all[i - 1]);
                }
            }
            if apart {
                text.push(separator);
                assert(text@ =~= before + seq![separator]);
            } else {
                assert(text@ =~= before + seq![]);
            }
            let ghost so_far = text@;
            match &self.parts[i] {
                PathComponent::Prefix(prefix) => {
                    text.append(prefix.as_str());
                    apart = false;
                },
                PathComponent::Root => {
                    text.push(separator);
                    assert(text@ =~= so_far + seq![separator]);
                    apart = false;
                },
                PathComponent::Current => {
                    text.append(".");
                    apart = true;
                },
                PathComponent::Parent => {
                    text.append("..");
                    apart = true;
                },
                PathComponent::Normal(name) => {
                    text.append(name.as_str());
                    apart = true;
                },
            }
            i += 1;
        }
        assert(all.take(i as int) =~= all);
        text
    }
}

/// A path's text without the prefix by which Windows marks a path as verbatim.
pub open spec fn without_verbatim_prefix(path: Seq<char>) -> Seq<char> {
    if "\\\\?\\UNC\\"@.is_prefix_of(path) {
        "\\\\"@ + path.skip("\\\\?\\UNC\\"@.len() as int)
    } else if "\\\\?\\"@.is_prefix_of(path) {
        path.skip("\\\\?\\"@.len() as int)
    } else {
        path
    }
}

/// A path's text as tools and messages show it.
pub fn strip_windows_verbatim_prefix(path: &str) -> (r: String)
    ensures
        r@ == without_verbatim_prefix(path@),
{
    if let Some(rest) = strip_prefix(path, "\\\\?\\UNC\\") {
        concat2("\\\\", rest.as_str())
    } else if let Some(rest) = strip_prefix(path, "\\\\?\\") {
        rest
    } else {
        path.to_owned()
    }
}

// ---------------------------------------------------------------------------------------------
// Laws
// ---------------------------------------------------------------------------------------------

proof fn lemma_text_before_total(a: Seq<char>, b: Seq<char>)
    ensures
        !(text_before(a, b) && text_before(b, a)),
        text_before(a, b) || text_before(b, a) || a == b,
        a == b ==> !text_before(a, b),
    decreases a.len(),
{
    if a.len() > 0 && b.len() > 0 && a[0] == b[0] {
        lemma_text_before_total(a.drop_first(), b.drop_first());
        if a.drop_first() == b.drop_first() {
            assert(a =~= seq![a[0]] + a.drop_first());
            assert(b =~= seq![b[0]] + b.drop_first());
        }
    } else if a.len() == 0 && b.len() == 0 {
        assert(a =~= b);
    }
}

proof fn lemma_text_before_transitive(a: Seq<char>, b: Seq<char>, c: Seq<char>)
    requires
        text_before(a, b),
        text_before(b, c),
    ensures
        text_before(a, c),
    decreases a.len(),
{
    if a.len() > 0 && a[0] == b[0] && b[0] == c[0] {
        lemma_text_before_transitive(a.drop_first(), b.drop_first(), c.drop_first());
    }
}

proof fn lemma_part_before(a: Part, b: Part, c: Part)
    ensures
        !(part_before(a, b) && part_before(b, a)),
        part_before(a, b) || part_before(b, a) || a == b,
        a == b ==> !part_before(a, b),
        part_before(a, b) && part_before(b, c) ==> part_before(a, c),
{
    lemma_text_before_total(part_text(a), part_text(b));
    if part_before(a, b) && part_before(b, c) && part_rank(a) == part_rank(c) {
        lemma_text_before_transitive(part_text(a), part_text(b), part_text(c));
    }
}

/// Of two different paths, one stands before the other.
pub proof fn path_order_is_total(a: Seq<Part>, b: Seq<Part>)
    ensures
        !(path_before(a, b) && path_before(b, a)),
        path_before(a, b) || path_before(b, a) || a == b,
        a == b ==> !path_before(a, b),
    decreases a.len(),
{
    if a.len() > 0 && b.len() > 0 {
        lemma_part_before(a[0], b[0], b[0]);
        if a[0] == b[0] {
            path_order_is_total(a.drop_first(), b.drop_first());
            if a.drop_first() == b.drop_first() {
                assert(a =~= seq![a[0]] + a.drop_first());
                assert(b =~= seq![b[0]] + b.drop_first());
            }
        }
    } else if a.len() == 0 && b.len() == 0 {
        assert(a =~= b);
    }
}

/// Where `a` stands before `b`, and `b` before `c`, `a` stands before `c`.
pub proof fn path_order_is_transitive(a: Seq<Part>, b: Seq<Part>, c: Seq<Part>)
    requires
        path_before(a, b),
        path_before(b, c),
    ensures
        path_before(a, c),
    decreases a.len(),
{
    if a.len() > 0 {
        lemma_part_before(a[0], b[0], c[0]);
        lemma_part_before(b[0], a[0], a[0]);
        if a[0] == b[0] && b[0] == c[0] {
            path_order_is_transitive(a.drop_first(), b.drop_first(), c.drop_first());
        }
    }
}

/// A normalized path holds no dots.
pub proof fn normalized_paths_hold_no_dots(path: Seq<Part>)
    ensures
        forall|i: int|
            0 <= i < lexical(path).len() ==> !((#[trigger] lexical(path)[i]) is Current)
                && !(lexical(path)[i] is Parent),
    decreases path.len(),
{
    if path.len() > 0 {
        normalized_paths_hold_no_dots(path.drop_last());
        let before = lexical(path.drop_last());
        assert forall|i: int| 0 <= i < lexical(path).len() implies !((#[trigger] lexical(path)[i])
            is Current) && !(lexical(path)[i] is Parent) by {
            if i < before.len() {
                assert(lexical(path)[i] == before[i]);
            }
        }
    }
}

/// A search ends at the nearest ancestor that exists, where only names lie behind it.
pub proof fn the_nearest_ancestor_is_found(
    path: Seq<Part>,
    exists_at: spec_fn(int) -> bool,
    kept: int,
)
    requires
        path.len() <= usize::MAX,
    ensures
        searched(path, exists_at, path.len() as int) == Some(kept) <==> nearest_ancestor(
            path,
            exists_at,
            kept,
        ),
{
    lemma_searched(path, exists_at, path.len() as int, kept);
}

proof fn lemma_searched(path: Seq<Part>, exists_at: spec_fn(int) -> bool, from: int, kept: int)
    requires
        0 <= from <= path.len() <= usize::MAX,
        names_behind(path, from),
        forall|k: int| from < k <= path.len() ==> !#[trigger] exists_at(k),
    ensures
        searched(path, exists_at, from) == Some(kept) <==> nearest_ancestor(path, exists_at, kept),
    decreases from,
{
    if exists_at(from) {
        if nearest_ancestor(path, exists_at, kept) && kept < from {
            assert(!exists_at(from));
        }
    } else if from > 0 && path[from - 1] is Normal {
        assert forall|i: int| from - 1 <= i < path.len() implies (#[trigger] path[i]) is Normal by {
            if i >= from {
                assert(path[i] is Normal);
            }
        }
        lemma_searched(path, exists_at, from - 1, kept);
    } else if nearest_ancestor(path, exists_at, kept) {
        assert(kept < from) by {
            if kept > from {
                assert(!exists_at(kept));
            }
        }
        assert(path[from - 1] is Normal);
    }
}

/// Normalizing twice is normalizing once.
pub proof fn normalizing_is_idempotent(path: Seq<Part>)
    ensures
        lexical(lexical(path)) == lexical(path),
{
    normalized_paths_hold_no_dots(path);
    lemma_lexical_keeps(lexical(path));
}

proof fn lemma_lexical_keeps(path: Seq<Part>)
    requires
        forall|i: int|
            0 <= i < path.len() ==> !((#[trigger] path[i]) is Current) && !(path[i] is Parent),
    ensures
        lexical(path) == path,
    decreases path.len(),
{
    if path.len() > 0 {
        let front = path.drop_last();
        assert forall|i: int| 0 <= i < front.len() implies !((#[trigger] front[i]) is Current) && !(
        front[i] is Parent) by {
            assert(front[i] == path[i]);
        }
        lemma_lexical_keeps(front);
        assert(!(path[path.len() - 1] is Current));
        assert(front.push(path.last()) =~= path);
    }
}

} // verus!
