//! What an action may touch.
use super::{
    disk_names, is_disk_path, lies_within, limits_fault, member_fault, name_fault, scope_fault, segment_valid, shield_fault,
    Fault, ScopeView,
};
use crate::faults::earliest_none;
use crate::paths::laws::{disk_paths_have_components, lists_begin_with_their_head};
use crate::paths::{climbs, controlled_path, dos_components, stays, LocationView, PartView};
use crate::text::{byte_len, has_control, lowered, pieces, starts_with, uppered};
use vstd::prelude::*;

verus! {

/// A part of a file name that is refused: an empty or hidden one, one that ends in a dot or a
/// space, or one that a system reads as a device.
pub open spec fn refused_part(segment: Seq<char>) -> bool {
    ||| segment.len() == 0
    ||| segment[0] == '.' || segment.last() == '.' || segment.last() == ' '
    ||| {
        let stem = pieces(uppered(segment), '.')[0];
        ||| stem == "CON"@ || stem == "PRN"@ || stem == "AUX"@ || stem == "NUL"@ || stem == "CONIN$"@ || stem == "CONOUT$"@
        ||| byte_len(stem) == 4 && (starts_with(stem, "COM"@) || starts_with(stem, "LPT"@))
    }
}

proof fn parts_are_refused(segment: Seq<char>)
    ensures
        segment_valid(segment) <==> !refused_part(segment),
{
    reveal_strlit(".");
    reveal_strlit(" ");
    assert("."@.len() == 1 && "."@[0] == '.' && " "@.len() == 1 && " "@[0] == ' ');
    if segment.len() > 0 {
        let n = segment.len() as int;
        assert(segment.subrange(0, 1)[0] == segment[0]);
        assert(segment.subrange(n - 1, n)[0] == segment.last());
        if segment[0] == '.' {
            assert(segment.subrange(0, 1) =~= "."@);
        }
        if segment.last() == '.' {
            assert(segment.subrange(n - 1, n) =~= "."@);
        }
        if segment.last() == ' ' {
            assert(segment.subrange(n - 1, n) =~= " "@);
        }
    }
}

/// A file is named by a bounded relative path with forward slashes, without control
/// characters, none of whose parts is hidden, ambiguous or a device; every such name is
/// accepted and no other.
pub proof fn accepted_names_are_plain(name: Seq<char>)
    ensures
        name_fault(name) is None <==> 0 < name.len() && byte_len(name) <= 512 && !name.contains('\\') && !name.contains(':')
            && !has_control(name) && forall|i: int|
            0 <= i < pieces(name, '/').len() ==> !refused_part(#[trigger] pieces(name, '/')[i]),
        name_fault(name) is Some ==> name_fault(name)->0 is Denied,
{
    assert forall|s: Seq<char>| segment_valid(s) <==> !(#[trigger] refused_part(s)) by {
        parts_are_refused(s);
    }
    if name_fault(name) is None {
        assert forall|i: int| 0 <= i < pieces(name, '/').len() implies !refused_part(#[trigger] pieces(name, '/')[i]) by {
            assert(segment_valid(pieces(name, '/')[i]));
        }
    }
    if forall|i: int| 0 <= i < pieces(name, '/').len() ==> !refused_part(#[trigger] pieces(name, '/')[i]) {
        assert forall|i: int| 0 <= i < pieces(name, '/').len() implies segment_valid(#[trigger] pieces(name, '/')[i]) by {
            assert(!refused_part(pieces(name, '/')[i]));
        }
    }
}

/// Whether a local path lies within another: the same disk, and its first names those of the
/// other, case aside.
pub proof fn local_paths_lie_within_their_beginnings(path: Seq<PartView>, root: Seq<PartView>)
    ensures
        lies_within(path, root) is Ok <==> dos_components(path) is Ok && dos_components(root) is Ok,
        lies_within(path, root) is Ok ==> (lies_within(path, root)->Ok_0 <==> root.len() <= path.len() && lowered(
            seq![path[0]->volume->Disk_0],
        ) == lowered(seq![root[0]->volume->Disk_0]) && forall|k: int|
            2 <= k < root.len() ==> lowered((#[trigger] path[k])->Name_0) == lowered(root[k]->Name_0)),
{
    disk_paths_have_components(path);
    disk_paths_have_components(root);
    if lies_within(path, root) is Ok {
        let p = dos_components(path)->Ok_0;
        let q = dos_components(root)->Ok_0;
        lists_begin_with_their_head(p, q);
        let a = lowered(seq![path[0]->volume->Disk_0]);
        let b = lowered(seq![root[0]->volume->Disk_0]);
        if a + ":"@ == b + ":"@ {
            assert((a + ":"@).subrange(0, 1) =~= a);
            assert((b + ":"@).subrange(0, 1) =~= b);
        }
        if lies_within(path, root)->Ok_0 {
            assert(p[0] == q[0]);
            assert forall|k: int| 2 <= k < root.len() implies lowered((#[trigger] path[k])->Name_0) == lowered(
                root[k]->Name_0,
            ) by {
                assert(p[k - 1] == q[k - 1]);
                assert(p[k - 1] == lowered(path[k]->Name_0));
                assert(q[k - 1] == lowered(root[k]->Name_0));
            }
        }
        if root.len() <= path.len() && a == b && forall|k: int|
            2 <= k < root.len() ==> lowered((#[trigger] path[k])->Name_0) == lowered(root[k]->Name_0) {
            assert forall|i: int| 0 <= i < q.len() implies #[trigger] p[i] == q[i] by {
                if i > 0 {
                    assert(p[i] == lowered(path[i + 1]->Name_0));
                    assert(q[i] == lowered(root[i + 1]->Name_0));
                }
            }
        }
    }
}

/// A target is accepted only outside hidden directories and outside every protected path,
/// with plain names that are all different.
pub proof fn accepted_scopes_are_apart(root: LocationView, names: Seq<Seq<char>>, protected: Seq<LocationView>, i: int, j: int)
    requires
        scope_fault(root, names, protected) is None,
    ensures
        !controlled_path(root.parts),
        0 <= i < protected.len() ==> lies_within(root.parts, protected[i].parts) == Ok::<bool, Fault>(false),
        0 <= i < names.len() ==> name_fault(names[i]) is None,
        0 <= j < i < names.len() ==> names[i] != names[j],
{
    let f = |k: int| shield_fault(root.parts, protected[k]);
    let g = |k: int| super::allowed_fault(names, k);
    earliest_none(protected.len(), f);
    earliest_none(names.len(), g);
    if 0 <= i < protected.len() {
        assert(f(i) is None);
    }
    if 0 <= i < names.len() {
        assert(g(i) is None);
        assert(!super::name_repeats(names, i));
    }
}

/// A scope that meets all of this is accepted.
pub proof fn plain_scopes_are_accepted(root: LocationView, names: Seq<Seq<char>>, protected: Seq<LocationView>)
    requires
        !controlled_path(root.parts),
        forall|i: int|
            0 <= i < protected.len() ==> lies_within(root.parts, (#[trigger] protected[i]).parts) == Ok::<bool, Fault>(false),
        forall|i: int| 0 <= i < names.len() ==> name_fault(#[trigger] names[i]) is None,
        forall|i: int, j: int| 0 <= j < i < names.len() ==> #[trigger] names[i] != #[trigger] names[j],
    ensures
        scope_fault(root, names, protected) is None,
{
    let f = |k: int| shield_fault(root.parts, protected[k]);
    let g = |k: int| super::allowed_fault(names, k);
    earliest_none(protected.len(), f);
    earliest_none(names.len(), g);
    assert forall|i: int| 0 <= i < protected.len() implies (#[trigger] f(i)) is None by {
        assert(lies_within(root.parts, protected[i].parts) == Ok::<bool, Fault>(false));
    }
    assert forall|i: int| 0 <= i < names.len() implies (#[trigger] g(i)) is None by {
        assert(name_fault(names[i]) is None);
        assert(!super::name_repeats(names, i));
    }
}

/// A target has between 1 and 64 files, and an absolute path outside hidden directories.
pub proof fn targets_have_a_bounded_list(absolute: bool, given: Seq<PartView>, count: nat)
    ensures
        limits_fault(absolute, given, count) is None <==> absolute && 1 <= count <= 64 && !controlled_path(given),
        limits_fault(absolute, given, count) is Some ==> limits_fault(absolute, given, count)->0 is Denied,
{
}

/// A path to an object on a disk is absolute and climbs nowhere.
pub proof fn disk_paths_climb_nowhere(absolute: bool, parts: Seq<PartView>, i: int)
    requires
        is_disk_path(absolute, parts),
        0 <= i < parts.len(),
    ensures
        absolute,
        !(parts[i] is Parent) && !(parts[i] is Current),
        parts[0] is Volume && parts[0]->volume is Disk,
{
    if parts[i] is Parent {
        assert(climbs(parts));
    }
    if parts[i] is Current {
        assert(stays(parts));
    }
}

/// Exactly the listed files with a plain name are members.
pub proof fn members_are_listed(s: ScopeView, name: Seq<char>)
    ensures
        member_fault(s, name) is None <==> name_fault(name) is None && s.allowed.contains(name),
        member_fault(s, name) is Some ==> member_fault(s, name)->0 is Denied,
        disk_names(s.root.parts) is Ok <==> dos_components(s.root.parts) is Ok,
{
}

} // verus!
