//! Where the durable approval store may lie.
use super::{ApprovalError, Fault};
use crate::paths::{climbs, has_parent, is_under, parts_of, under, Location, LocationView, Part, PartView};
use vstd::prelude::*;

verus! {

pub open spec fn reports(r: Result<(), ApprovalError>, fault: Option<Fault>) -> bool {
    match r {
        Ok(_) => fault is None,
        Err(e) => fault == Some(e@),
    }
}

/// Why a directory is refused: for its path, or for a link on the way to it. `linked` goes
/// from the directory to its root.
pub open spec fn directory_fault(absolute: bool, parts: Seq<PartView>, linked: Seq<bool>) -> Option<Fault> {
    if !absolute || climbs(parts) {
        Some(Fault::Invalid("data directory must be absolute without parent traversal"@))
    } else if exists|i: int| 0 <= i < linked.len() && #[trigger] linked[i] {
        Some(Fault::Invalid("linked approval directory ancestor"@))
    } else {
        None
    }
}

pub fn check_directory(absolute: bool, parts: &Vec<Part>, linked: &Vec<bool>) -> (r: Result<(), ApprovalError>)
    ensures
        reports(r, directory_fault(absolute, parts_of(parts@), linked@)),
{
    if !absolute || has_parent(parts) {
        return Err(ApprovalError::Invalid("data directory must be absolute without parent traversal"));
    }
    let mut i: usize = 0;
    while i < linked.len()
        invariant
            i <= linked.len(),
            absolute && !climbs(parts_of(parts@)),
            forall|j: int| 0 <= j < i ==> !#[trigger] linked@[j],
        decreases linked.len() - i,
    {
        if linked[i] {
            return Err(ApprovalError::Invalid("linked approval directory ancestor"));
        }
        i = i + 1;
    }
    Ok(())
}

/// A directory in the project's source, if that is there.
pub open spec fn source_fault(resolved: LocationView, source: Option<LocationView>) -> Option<Fault> {
    if source is Some && is_under(resolved.parts, source->0.parts) {
        Some(Fault::Invalid("data directory must be outside project source"@))
    } else {
        None
    }
}

pub open spec fn maybe_place(l: Option<&Location>) -> Option<LocationView> {
    match l {
        Some(l) => Some(l@),
        None => None,
    }
}

pub fn check_source(resolved: &Location, source: Option<&Location>) -> (r: Result<(), ApprovalError>)
    ensures
        reports(r, source_fault(resolved@, maybe_place(source))),
{
    match source {
        Some(s) => if under(&resolved.parts, &s.parts) {
            Err(ApprovalError::Invalid("data directory must be outside project source"))
        } else {
            Ok(())
        },
        None => Ok(()),
    }
}

/// What stands where the journal or its lock goes.
pub fn check_regular(regular: bool, linked: bool) -> (r: Result<(), ApprovalError>)
    ensures
        reports(
            r,
            if !regular || linked { Some(Fault::Invalid("journal and lock must be regular files"@)) } else { None },
        ),
{
    if !regular || linked {
        return Err(ApprovalError::Invalid("journal and lock must be regular files"));
    }
    Ok(())
}

/// The file that was opened: regular, no link, and under one name only.
pub open spec fn opened_fault(regular: bool, linked: bool, names: u64) -> Option<Fault> {
    if !regular || linked {
        Some(Fault::Invalid("approval state must be a regular unlinked file"@))
    } else if names != 1 {
        Some(Fault::Invalid("hard-linked approval state is forbidden"@))
    } else {
        None
    }
}

pub fn check_opened(regular: bool, linked: bool, names: u64) -> (r: Result<(), ApprovalError>)
    ensures
        reports(r, opened_fault(regular, linked, names)),
{
    if !regular || linked {
        return Err(ApprovalError::Invalid("approval state must be a regular unlinked file"));
    }
    if names != 1 {
        return Err(ApprovalError::Invalid("hard-linked approval state is forbidden"));
    }
    Ok(())
}

} // verus!
