//! What holds of paths as they are ordered, normalized, written and placed under roots.

use vstd::prelude::*;

use crate::path::{below_ancestor, lexical, path_before, path_text, text_before};
use crate::path::{without_verbatim_prefix, Part};
use crate::state::under_any;

verus! {

/// Normalizing drops what names the directory itself, lets a parent take the name before it away,
/// keeps every other component, and goes no higher than what is no name.
pub proof fn normalizing_goes_component_by_component(path: Seq<Part>, part: Part)
    ensures
        lexical(seq![]).len() == 0,
        lexical(path.push(Part::Current)) == lexical(path),
        !(part is Current) && !(part is Parent) ==> lexical(path.push(part)) == lexical(path).push(
            part,
        ),
        part is Normal ==> lexical(path.push(part).push(Part::Parent)) == lexical(path),
        lexical(path).len() == 0 || !(lexical(path).last() is Normal) ==> lexical(
            path.push(Part::Parent),
        ) == lexical(path),
{
    assert(path.push(part).drop_last() =~= path);
    assert(path.push(Part::Current).drop_last() =~= path);
    assert(path.push(Part::Parent).drop_last() =~= path);
    let two = path.push(part).push(Part::Parent);
    assert(two.drop_last() =~= path.push(part));
    if part is Normal {
        let named = lexical(path.push(part));
        assert(named == lexical(path).push(part));
        assert(named.last() == part);
        assert(named.drop_last() =~= lexical(path));
        assert(two.last() is Parent);
        assert(lexical(two) == crate::path::popped(named));
    }
}

/// A path is written component by component: a name, or a step to the directory or its parent,
/// behind another such is set apart from it; nothing is put behind a root or a prefix.
pub proof fn paths_are_written_component_by_component(
    path: Seq<Part>,
    part: Part,
    separator: char,
)
    ensures
        path_text(seq![], separator).len() == 0,
        ({
            let text = match part {
                Part::Prefix(text) => text,
                Part::Root => seq![separator],
                Part::Current => "."@,
                Part::Parent => ".."@,
                Part::Normal(name) => name,
            };
            &&& path.len() == 0 || path.last() is Root || path.last() is Prefix ==> path_text(
                path.push(part),
                separator,
            ) == path_text(path, separator) + text
            &&& path.len() > 0 && !(path.last() is Root) && !(path.last() is Prefix) ==> path_text(
                path.push(part),
                separator,
            ) == path_text(path, separator).push(separator) + text
        }),
{
    assert(path.push(part).drop_last() =~= path);
    let before = path_text(path, separator);
    assert(before + Seq::<char>::empty() =~= before);
    assert(before + seq![separator] =~= before.push(separator));
}

/// Paths are ordered by their first difference: a path stands before those below it, and of two
/// components that differ, prefixes stand before roots, these before the directory itself, before
/// its parent, and before names, which are ordered by their characters.
pub proof fn paths_are_ordered_by_their_first_difference(
    common: Seq<Part>,
    a: Part,
    b: Part,
    more: Seq<Part>,
    rest: Seq<Part>,
)
    requires
        a != b,
    ensures
        path_before(common, common.push(a) + more),
        !path_before(common.push(a) + more, common),
        path_before(common.push(a) + more, common.push(b) + rest) == (match (a, b) {
            (Part::Prefix(x), Part::Prefix(y)) => text_before(x, y),
            (Part::Prefix(_), _) => true,
            (_, Part::Prefix(_)) => false,
            (Part::Root, _) => true,
            (_, Part::Root) => false,
            (Part::Current, _) => true,
            (_, Part::Current) => false,
            (Part::Parent, _) => true,
            (_, Part::Parent) => false,
            (Part::Normal(x), Part::Normal(y)) => text_before(x, y),
        }),
    decreases common.len(),
{
    let left = common.push(a) + more;
    let right = common.push(b) + rest;
    if common.len() > 0 {
        let tail = common.drop_first();
        paths_are_ordered_by_their_first_difference(tail, a, b, more, rest);
        assert(left.drop_first() =~= tail.push(a) + more);
        assert(right.drop_first() =~= tail.push(b) + rest);
        assert(left[0] == common[0] && right[0] == common[0]);
    } else {
        assert(left[0] == a && right[0] == b);
    }
}

/// Texts are ordered by their first difference, a text before those that it begins.
pub proof fn texts_are_ordered_by_their_first_difference(
    common: Seq<char>,
    a: char,
    b: char,
    more: Seq<char>,
    rest: Seq<char>,
)
    requires
        a != b,
    ensures
        text_before(common, common.push(a) + more),
        !text_before(common.push(a) + more, common),
        text_before(common.push(a) + more, common.push(b) + rest) == ((a as u32) < (b as u32)),
    decreases common.len(),
{
    let left = common.push(a) + more;
    let right = common.push(b) + rest;
    if common.len() > 0 {
        let tail = common.drop_first();
        texts_are_ordered_by_their_first_difference(tail, a, b, more, rest);
        assert(left.drop_first() =~= tail.push(a) + more);
        assert(right.drop_first() =~= tail.push(b) + rest);
        assert(left[0] == common[0] && right[0] == common[0]);
    } else {
        assert(left[0] == a && right[0] == b);
    }
}

/// A path is under a root where it begins with all the root's components: the root itself, and
/// whatever lies below it.
pub proof fn what_lies_below_a_root_is_under_it(
    path: Seq<Part>,
    roots: Seq<Seq<Part>>,
    root: Seq<Part>,
    rest: Seq<Part>,
)
    ensures
        roots.contains(root) ==> under_any(root + rest, roots),
        under_any(path, roots) ==> exists|i: int|
            0 <= i < roots.len() && path.len() >= (#[trigger] roots[i]).len() && path.take(
                roots[i].len() as int,
            ) == roots[i],
        !under_any(path, seq![]),
{
    if roots.contains(root) {
        let i = choose|i: int| 0 <= i < roots.len() && roots[i] == root;
        assert((root + rest).subrange(0, root.len() as int) =~= root);
        assert(roots[i].is_prefix_of(root + rest));
    }
    if under_any(path, roots) {
        let i = choose|i: int| 0 <= i < roots.len() && (#[trigger] roots[i]).is_prefix_of(path);
        assert(path.take(roots[i].len() as int) =~= roots[i]);
    }
}

/// What does not exist yet is placed below its nearest ancestor: the ancestor in its canonical
/// form, or else normalized, and behind it the names that are left.
pub proof fn new_paths_are_placed_below_their_ancestor(
    path: Seq<Part>,
    kept: int,
    canonical: Seq<Part>,
)
    requires
        0 <= kept <= path.len(),
    ensures
        ({
            let placed = below_ancestor(path, kept, Some(canonical));
            let plain = below_ancestor(path, kept, None);
            &&& placed.len() == canonical.len() + path.len() - kept
            &&& placed.take(canonical.len() as int) == canonical
            &&& placed.skip(canonical.len() as int) == path.skip(kept)
            &&& plain == lexical(path.take(kept)) + path.skip(kept)
        }),
{
    let placed = below_ancestor(path, kept, Some(canonical));
    assert(placed.take(canonical.len() as int) =~= canonical);
    assert(placed.skip(canonical.len() as int) =~= path.skip(kept));
}

/// A verbatim prefix is taken from a path as it is shown, and of a share only what makes it
/// verbatim; any other path is shown as it is.
pub proof fn verbatim_prefixes_are_not_shown(rest: Seq<char>, path: Seq<char>)
    ensures
        without_verbatim_prefix("\\\\?\\UNC\\"@ + rest) == "\\\\"@ + rest,
        !"UNC\\"@.is_prefix_of(rest) ==> without_verbatim_prefix("\\\\?\\"@ + rest) == rest,
        !"\\\\?\\"@.is_prefix_of(path) ==> without_verbatim_prefix(path) == path,
{
    reveal_strlit("\\\\?\\UNC\\");
    reveal_strlit("\\\\?\\");
    reveal_strlit("UNC\\");
    let share = "\\\\?\\UNC\\"@;
    let mark = "\\\\?\\"@;
    let unc = "UNC\\"@;
    assert(share =~= mark + unc);
    assert((share + rest).subrange(0, share.len() as int) =~= share);
    assert(share.is_prefix_of(share + rest));
    assert((share + rest).skip(share.len() as int) =~= rest);
    assert((mark + rest).subrange(0, mark.len() as int) =~= mark);
    assert(mark.is_prefix_of(mark + rest));
    assert((mark + rest).skip(mark.len() as int) =~= rest);
    if share.is_prefix_of(mark + rest) {
        assert(rest.subrange(0, unc.len() as int) =~= unc) by {
            assert forall|i: int| 0 <= i < unc.len() implies rest[i] == unc[i] by {
                assert((mark + rest)[i + mark.len()] == share[i + mark.len()]);
            }
        }
        assert(unc.is_prefix_of(rest));
    }
    if share.is_prefix_of(path) {
        assert(path.subrange(0, mark.len() as int) =~= mark) by {
            assert forall|i: int| 0 <= i < mark.len() implies path[i] == mark[i] by {
                assert(share[i] == mark[i]);
            }
        }
        assert(mark.is_prefix_of(path));
    }
}

} // verus!
