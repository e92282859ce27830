//! What holds of paths as such.
use super::{
    begins_with, climbs, component_key, controlled_path, dos_components, folded_names, is_under, names, path_less, stays,
    under_any, DosFault, LocationView, PartView,
};
use crate::text::{less, lowercased, lowered};
use vstd::prelude::*;

verus! {

/// A path lies under a root exactly if it begins with all of the root's parts, whole; a root
/// lies under itself, and nothing shorter lies under it.
pub proof fn paths_lie_under_what_they_begin_with(path: Seq<PartView>, root: Seq<PartView>, rest: Seq<PartView>)
    ensures
        is_under(root + rest, root),
        is_under(root, root),
        is_under(path, root) <==> root.len() <= path.len() && forall|i: int| 0 <= i < root.len() ==> #[trigger] path[i] == root[i],
{
    assert((root + rest).subrange(0, root.len() as int) =~= root);
    assert(root.subrange(0, root.len() as int) =~= root);
    if is_under(path, root) {
        assert forall|i: int| 0 <= i < root.len() implies #[trigger] path[i] == root[i] by {
            assert(path.subrange(0, root.len() as int)[i] == root[i]);
        }
    }
    if root.len() <= path.len() && forall|i: int| 0 <= i < root.len() ==> #[trigger] path[i] == root[i] {
        assert(path.subrange(0, root.len() as int) =~= root);
    }
}

/// Being under one of several roots is being under any of them.
pub proof fn paths_lie_under_any_root(path: Seq<PartView>, roots: Seq<LocationView>, i: int)
    ensures
        0 <= i < roots.len() && is_under(path, roots[i].parts) ==> under_any(path, roots),
        under_any(path, roots) ==> exists|k: int| 0 <= k < roots.len() && is_under(path, (#[trigger] roots[k]).parts),
        roots.len() == 0 ==> !under_any(path, roots),
{
}

/// A path climbs, stays in place, or passes through a hidden directory exactly if one of its
/// parts does.
pub proof fn single_parts_decide(parts: Seq<PartView>, i: int)
    requires
        0 <= i < parts.len(),
    ensures
        parts[i] is Parent ==> climbs(parts),
        parts[i] is Current ==> stays(parts),
        parts[i] is Name && parts[i]->Name_0.len() > 0 && parts[i]->Name_0[0] == '.' ==> controlled_path(parts),
        (forall|k: int| 0 <= k < parts.len() ==> !((#[trigger] parts[k]) is Parent)) ==> !climbs(parts),
        (forall|k: int| 0 <= k < parts.len() ==> !((#[trigger] parts[k]) is Current)) ==> !stays(parts),
        (forall|k: int|
            0 <= k < parts.len() && (#[trigger] parts[k]) is Name ==> parts[k]->Name_0.len() > 0 && parts[k]->Name_0[0] != '.')
            ==> !controlled_path(parts),
{
    reveal_strlit(".");
    assert("."@.len() == 1 && "."@[0] == '.');
    if parts[i] is Name && parts[i]->Name_0.len() > 0 && parts[i]->Name_0[0] == '.' {
        assert(parts[i]->Name_0.subrange(0, 1) =~= "."@);
        assert(super::is_control_part(parts[i]));
    }
    if controlled_path(parts) {
        let k = choose|k: int| 0 <= k < parts.len() && super::is_control_part(#[trigger] parts[k]);
        assert(parts[k]->Name_0.subrange(0, 1)[0] == '.');
    }
}

proof fn names_line_up(parts: Seq<PartView>, from: int)
    requires
        0 <= from <= parts.len(),
    ensures
        names(parts, from) is Some <==> forall|k: int| from <= k < parts.len() ==> (#[trigger] parts[k]) is Name,
        names(parts, from) is Some ==> names(parts, from)->0.len() == parts.len() - from && forall|k: int|
            from <= k < parts.len() ==> names(parts, from)->0[k - from] == lowered((#[trigger] parts[k])->Name_0),
    decreases parts.len() - from,
{
    if from < parts.len() {
        names_line_up(parts, from + 1);
        if names(parts, from) is Some {
            let rest = names(parts, from + 1)->0;
            assert forall|k: int| from <= k < parts.len() implies names(parts, from)->0[k - from] == lowered(
                (#[trigger] parts[k])->Name_0,
            ) by {
                if k > from {
                    assert(rest[k - (from + 1)] == lowered(parts[k]->Name_0));
                }
            }
        }
    }
}

/// The components of a local path: its disk and its names, all without regard to case. A
/// path that is relative, on another kind of volume, or holds an alias has none, and it is
/// said which of these it is.
pub proof fn disk_paths_have_components(parts: Seq<PartView>)
    ensures
        dos_components(parts) is Ok <==> parts.len() >= 2 && parts[0] is Volume && parts[0]->volume is Disk && parts[1] is Root
            && forall|k: int| 2 <= k < parts.len() ==> (#[trigger] parts[k]) is Name,
        dos_components(parts) is Ok ==> dos_components(parts)->Ok_0.len() == parts.len() - 1,
        dos_components(parts) is Ok ==> dos_components(parts)->Ok_0[0] == lowered(seq![parts[0]->volume->Disk_0]) + ":"@,
        dos_components(parts) is Ok ==> forall|k: int|
            2 <= k < parts.len() ==> dos_components(parts)->Ok_0[k - 1] == lowered((#[trigger] parts[k])->Name_0),
        dos_components(parts) is Err ==> match dos_components(parts)->Err_0 {
            DosFault::NotAbsolute => parts.len() == 0 || !(parts[0] is Volume),
            DosFault::NotLocal => parts[0] is Volume && !(parts[0]->volume is Disk),
            DosFault::NotRooted => parts[0] is Volume && parts[0]->volume is Disk && (parts.len() < 2 || !(parts[1] is Root)),
            DosFault::Alias => exists|k: int| 2 <= k < parts.len() && !((#[trigger] parts[k]) is Name),
        },
{
    if parts.len() >= 2 {
        names_line_up(parts, 2);
        if dos_components(parts) is Ok {
            let rest = names(parts, 2)->0;
            assert forall|k: int| 2 <= k < parts.len() implies dos_components(parts)->Ok_0[k - 1] == lowered(
                (#[trigger] parts[k])->Name_0,
            ) by {
                assert(rest[k - 2] == lowered(parts[k]->Name_0));
            }
        }
    }
}

proof fn folded_names_line_up(parts: Seq<PartView>, from: int)
    requires
        0 <= from <= parts.len(),
    ensures
        folded_names(parts, from) is Some <==> forall|k: int| from <= k < parts.len() ==> (#[trigger] parts[k]) is Name,
        folded_names(parts, from) is Some ==> folded_names(parts, from)->0.len() == parts.len() - from && forall|k: int|
            from <= k < parts.len() ==> folded_names(parts, from)->0[k - from] == lowercased((#[trigger] parts[k])->Name_0),
    decreases parts.len() - from,
{
    if from < parts.len() {
        folded_names_line_up(parts, from + 1);
        if folded_names(parts, from) is Some {
            let rest = folded_names(parts, from + 1)->0;
            assert forall|k: int| from <= k < parts.len() implies folded_names(parts, from)->0[k - from] == lowercased(
                (#[trigger] parts[k])->Name_0,
            ) by {
                if k > from {
                    assert(rest[k - (from + 1)] == lowercased(parts[k]->Name_0));
                }
            }
        }
    }
}

/// The key by which absolute paths are compared: the volume, whichever prefix it was written
/// with, and the names, without regard to case. Disks and shares never have the same key.
pub proof fn absolute_paths_have_keys(parts: Seq<PartView>, other: Seq<PartView>)
    ensures
        component_key(parts) is Some <==> parts.len() >= 2 && parts[0] is Volume && !(parts[0]->volume is Other) && parts[1] is Root
            && forall|k: int| 2 <= k < parts.len() ==> (#[trigger] parts[k]) is Name,
        component_key(parts) is Some ==> component_key(parts)->0.len() == parts.len() - 1,
        component_key(parts) is Some ==> forall|k: int|
            2 <= k < parts.len() ==> component_key(parts)->0[k - 1] == lowercased((#[trigger] parts[k])->Name_0),
        component_key(parts) is Some && component_key(other) is Some && parts[0]->volume is Disk && other[0]->volume is Share
            ==> component_key(parts)->0[0] != component_key(other)->0[0],
        component_key(parts) is Some && component_key(other) is Some && parts[0]->volume is Disk && other[0]->volume is Disk
            ==> (component_key(parts)->0[0] == component_key(other)->0[0] <==> lowered(seq![parts[0]->volume->Disk_0])
            == lowered(seq![other[0]->volume->Disk_0])),
{
    if parts.len() >= 2 {
        folded_names_line_up(parts, 2);
        if component_key(parts) is Some {
            let rest = folded_names(parts, 2)->0;
            assert forall|k: int| 2 <= k < parts.len() implies component_key(parts)->0[k - 1] == lowercased(
                (#[trigger] parts[k])->Name_0,
            ) by {
                assert(rest[k - 2] == lowercased(parts[k]->Name_0));
            }
        }
    }
    reveal_strlit("disk:");
    reveal_strlit("unc:");
    assert("disk:"@.len() == 5 && "disk:"@[0] == 'd' && "unc:"@.len() == 4 && "unc:"@[0] == 'u');
    if component_key(parts) is Some && component_key(other) is Some && parts[0]->volume is Disk {
        let a = lowered(seq![parts[0]->volume->Disk_0]);
        assert(component_key(parts)->0[0] == "disk:"@ + a);
        assert(("disk:"@ + a)[0] == 'd');
        if other[0]->volume is Share {
            let v = other[0]->volume;
            let b = "unc:"@ + lowercased(v->Share_0) + ":"@ + lowercased(v->Share_1);
            assert(component_key(other)->0[0] == b);
            assert(b[0] == 'u');
        } else {
            let b = lowered(seq![other[0]->volume->Disk_0]);
            assert(component_key(other)->0[0] == "disk:"@ + b);
            if "disk:"@ + a == "disk:"@ + b {
                assert(("disk:"@ + a).skip(5) =~= a);
                assert(("disk:"@ + b).skip(5) =~= b);
            }
        }
    }
}

/// A list begins with a head exactly if it has all of it in its place.
pub proof fn lists_begin_with_their_head(list: Seq<Seq<char>>, head: Seq<Seq<char>>)
    ensures
        begins_with(list, head) <==> head.len() <= list.len() && forall|i: int|
            0 <= i < head.len() ==> #[trigger] list[i] == head[i],
{
    if begins_with(list, head) {
        assert forall|i: int| 0 <= i < head.len() implies #[trigger] list[i] == head[i] by {
            assert(list.subrange(0, head.len() as int)[i] == head[i]);
        }
    }
    if head.len() <= list.len() && forall|i: int| 0 <= i < head.len() ==> #[trigger] list[i] == head[i] {
        assert(list.subrange(0, head.len() as int) =~= head);
    }
}

/// Paths are ordered by their first different part; a root stands before what lies under it.
pub proof fn roots_stand_before_their_paths(root: Seq<PartView>, a: Seq<char>, b: Seq<char>, rest: Seq<PartView>)
    ensures
        rest.len() > 0 ==> path_less(root, root + rest) && !path_less(root + rest, root),
        a != b ==> path_less(root.push(PartView::Name(a)), root.push(PartView::Name(b))) == less(a, b),
    decreases root.len(),
{
    if root.len() == 0 {
        assert(root + rest =~= rest);
        let x = root.push(PartView::Name(a));
        let y = root.push(PartView::Name(b));
        assert(x[0] == PartView::Name(a) && y[0] == PartView::Name(b));
    } else {
        let inner = root.drop_first();
        roots_stand_before_their_paths(inner, a, b, rest);
        assert((root + rest).drop_first() =~= inner + rest);
        assert(root.push(PartView::Name(a)).drop_first() =~= inner.push(PartView::Name(a)));
        assert(root.push(PartView::Name(b)).drop_first() =~= inner.push(PartView::Name(b)));
    }
}

} // verus!
