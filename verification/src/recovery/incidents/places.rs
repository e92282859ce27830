//! Where a journal of incidents may lie, independent of action authority.
use super::{Fault, IncidentError};
use crate::paths::{
    climbs, dos_components, dos_path, has_current, has_parent, is_under, parts_of, stays, under, DosFault, Location, LocationView,
    Part, PartView,
};
use crate::text::{copied, same, texts};
use vstd::prelude::*;

verus! {

pub open spec fn reports(r: Result<(), IncidentError>, fault: Option<Fault>) -> bool {
    match r {
        Ok(_) => fault is None,
        Err(e) => fault == Some(e@),
    }
}

fn invalid(message: &str) -> (e: IncidentError)
    ensures
        e@ == Fault::Invalid(message@),
{
    IncidentError::Invalid(copied(message))
}

/// Why a journal's path is refused; `named` says that it ends in a file name.
pub open spec fn path_fault(absolute: bool, named: bool, parts: Seq<PartView>) -> Option<Fault> {
    if !absolute || !named || climbs(parts) || stays(parts) {
        Some(Fault::Invalid("journal requires an absolute file path without traversal"@))
    } else {
        None
    }
}

pub fn check_path(absolute: bool, named: bool, parts: &Vec<Part>) -> (r: Result<(), IncidentError>)
    ensures
        reports(r, path_fault(absolute, named, parts_of(parts@))),
{
    if !absolute || !named || has_parent(parts) || has_current(parts) {
        return Err(invalid("journal requires an absolute file path without traversal"));
    }
    Ok(())
}

/// What stands at a step on the way to the journal.
pub struct Ancestor {
    pub linked: bool,
    pub directory: bool,
}

pub open spec fn ancestors_fault(list: Seq<Ancestor>) -> Option<Fault> {
    if exists|i: int| 0 <= i < list.len() && ((#[trigger] list[i]).linked || !list[i].directory) {
        Some(Fault::Invalid("linked or non-directory journal ancestor"@))
    } else {
        None
    }
}

pub fn check_ancestors(list: &Vec<Ancestor>) -> (r: Result<(), IncidentError>)
    ensures
        reports(r, ancestors_fault(list@)),
{
    let mut i: usize = 0;
    while i < list.len()
        invariant
            i <= list.len(),
            forall|j: int| 0 <= j < i ==> !((#[trigger] list@[j]).linked || !list@[j].directory),
        decreases list.len() - i,
    {
        if list[i].linked || !list[i].directory {
            return Err(invalid("linked or non-directory journal ancestor"));
        }
        i = i + 1;
    }
    Ok(())
}

/// A journal in the project's source, if that is there.
pub open spec fn source_fault(resolved: LocationView, source: Option<LocationView>) -> Option<Fault> {
    if source is Some && is_under(resolved.parts, source->0.parts) {
        Some(Fault::Invalid("journal must be outside project source"@))
    } else {
        None
    }
}

pub fn check_source(resolved: &Location, source: Option<&Location>) -> (r: Result<(), IncidentError>)
    ensures
        reports(
            r,
            source_fault(
                resolved@,
                match source {
                    Some(s) => Some(s@),
                    None => None,
                },
            ),
        ),
{
    match source {
        Some(s) => if under(&resolved.parts, &s.parts) {
            Err(invalid("journal must be outside project source"))
        } else {
            Ok(())
        },
        None => Ok(()),
    }
}

/// What stands where the journal goes; `opened` if it was opened already.
pub fn check_regular(regular: bool, linked: bool, opened: bool) -> (r: Result<(), IncidentError>)
    ensures
        reports(
            r,
            if linked || !regular {
                Some(
                    Fault::Invalid(
                        if opened {
                            "journal handle is not a regular unlinked file"@
                        } else {
                            "journal must be a regular unlinked file"@
                        },
                    ),
                )
            } else {
                None
            },
        ),
{
    if linked || !regular {
        return Err(
            if opened {
                invalid("journal handle is not a regular unlinked file")
            } else {
                invalid("journal must be a regular unlinked file")
            },
        );
    }
    Ok(())
}

/// The file behind a handle: `names` of it, and whether the path still leads to it.
pub fn check_identity(names: u64, same_file: bool) -> (r: Result<(), IncidentError>)
    ensures
        reports(
            r,
            if names != 1 || !same_file {
                Some(Fault::Invalid("journal hard link or replaced identity"@))
            } else {
                None
            },
        ),
{
    if names != 1 || !same_file {
        return Err(invalid("journal hard link or replaced identity"));
    }
    Ok(())
}

pub open spec fn dos_message(fault: DosFault) -> Seq<char> {
    match fault {
        DosFault::NotLocal => "journal requires a local DOS path"@,
        DosFault::NotAbsolute => "journal requires an absolute DOS path"@,
        DosFault::NotRooted => "journal requires a rooted DOS path"@,
        DosFault::Alias => "journal path alias rejected"@,
    }
}

/// The names of a path on a local disk.
pub fn windows_components(parts: &Vec<Part>) -> (r: Result<Vec<String>, IncidentError>)
    ensures
        match r {
            Ok(list) => dos_components(parts_of(parts@)) == Ok::<Seq<Seq<char>>, DosFault>(texts(list@)),
            Err(e) => dos_components(parts_of(parts@)) is Err && e@ == Fault::Invalid(
                dos_message(dos_components(parts_of(parts@))->Err_0),
            ),
        },
{
    match dos_path(parts) {
        Ok(list) => Ok(list),
        Err(f) => Err(
            match f {
                DosFault::NotLocal => invalid("journal requires a local DOS path"),
                DosFault::NotAbsolute => invalid("journal requires an absolute DOS path"),
                DosFault::NotRooted => invalid("journal requires a rooted DOS path"),
                DosFault::Alias => invalid("journal path alias rejected"),
            },
        ),
    }
}

/// Why a handle on Windows is refused; `at` is where it leads to.
pub open spec fn handle_fault(names: u64, at: Seq<PartView>, path: Seq<PartView>) -> Option<Fault> {
    if names != 1 {
        Some(Fault::Invalid("hard-linked journal is forbidden"@))
    } else {
        match dos_components(at) {
            Err(f) => Some(Fault::Invalid(dos_message(f))),
            Ok(a) => match dos_components(path) {
                Err(f) => Some(Fault::Invalid(dos_message(f))),
                Ok(b) => if a != b { Some(Fault::Invalid("journal object path changed"@)) } else { None },
            },
        }
    }
}

pub fn check_handle(names: u64, at: &Vec<Part>, path: &Vec<Part>) -> (r: Result<(), IncidentError>)
    ensures
        reports(r, handle_fault(names, parts_of(at@), parts_of(path@))),
{
    if names != 1 {
        return Err(invalid("hard-linked journal is forbidden"));
    }
    let a = match windows_components(at) {
        Err(e) => {
            return Err(e);
        },
        Ok(list) => list,
    };
    let b = match windows_components(path) {
        Err(e) => {
            return Err(e);
        },
        Ok(list) => list,
    };
    if a.len() != b.len() {
        assert(texts(a@).len() != texts(b@).len());
        return Err(invalid("journal object path changed"));
    }
    let mut i: usize = 0;
    while i < a.len()
        invariant
            i <= a.len(),
            a.len() == b.len(),
            names == 1,
            dos_components(parts_of(at@)) == Ok::<Seq<Seq<char>>, DosFault>(texts(a@)),
            dos_components(parts_of(path@)) == Ok::<Seq<Seq<char>>, DosFault>(texts(b@)),
            forall|j: int| 0 <= j < i ==> (#[trigger] texts(a@)[j]) == texts(b@)[j],
        decreases a.len() - i,
    {
        assert(texts(a@)[i as int] == a@[i as int]@ && texts(b@)[i as int] == b@[i as int]@);
        if !same(&a[i], &b[i]) {
            return Err(invalid("journal object path changed"));
        }
        i = i + 1;
    }
    assert(texts(a@) =~= texts(b@));
    Ok(())
}

} // verus!
