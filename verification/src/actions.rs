//! Bounded local text actions. Mutation is private to the trusted host.
//!
//! The caller opens, reads and writes; what may be opened, what a read means and what a
//! write amounts to is decided here.
pub mod laws;

use crate::paths::{
    begins_with, climbs, controlled_path, dos_components, dos_path, has_current, has_parent, in_control_directory, locations_of,
    names_begin, parts_of, stays, DosFault, Location, LocationView, Part, PartView, Volume,
};
use crate::table::Table;
use crate::text::{
    begins, byte_len, closes, contains, controlled, copied, ends_with, has_control, joined, less, listed, pieces, same, split,
    starts_with, texts, upper, uppered, utf8_len,
};
use vstd::prelude::*;

verus! {

pub const MAX_FILE_BYTES: usize = 16384;

#[derive(Clone)]
pub struct TextEdit {
    pub path: String,
    pub expected: String,
    pub replacement: String,
}

pub struct EditView {
    pub path: Seq<char>,
    pub expected: Seq<char>,
    pub replacement: Seq<char>,
}

impl View for TextEdit {
    type V = EditView;

    open spec fn view(&self) -> EditView {
        EditView { path: self.path@, expected: self.expected@, replacement: self.replacement@ }
    }
}

/// Why an action was refused. `Io` carries the text of the failure.
#[derive(Debug)]
pub enum ActionError {
    Denied(String),
    Changed,
    Io(String),
    Unknown(String),
}

pub enum Fault {
    Denied(Seq<char>),
    Changed,
    Io(Seq<char>),
    Unknown(Seq<char>),
}

impl View for ActionError {
    type V = Fault;

    open spec fn view(&self) -> Fault {
        match self {
            ActionError::Denied(m) => Fault::Denied(m@),
            ActionError::Changed => Fault::Changed,
            ActionError::Io(m) => Fault::Io(m@),
            ActionError::Unknown(m) => Fault::Unknown(m@),
        }
    }
}

/// The text shown for a failure.
pub open spec fn fault_message(fault: Fault) -> Seq<char> {
    match fault {
        Fault::Denied(m) => "action denied: "@ + m,
        Fault::Changed => "target changed; obtain a new approval"@,
        Fault::Io(m) => "action preparation failed: "@ + m,
        Fault::Unknown(m) => "write may have occurred; verify target before any retry: "@ + m,
    }
}

impl ActionError {
    /// The text shown for this failure.
    pub fn message(&self) -> (r: String)
        ensures
            r@ == fault_message(self@),
    {
        match self {
            ActionError::Denied(m) => joined("action denied: ", m),
            ActionError::Changed => copied("target changed; obtain a new approval"),
            ActionError::Io(m) => joined("action preparation failed: ", m),
            ActionError::Unknown(m) => joined("write may have occurred; verify target before any retry: ", m),
        }
    }
}

pub struct ActionReceipt {
    pub path: String,
    pub bytes_written: usize,
    pub content_verified: bool,
}

// Names of files.

/// Device names of the system, whatever follows a dot.
pub open spec fn is_device(stem: Seq<char>) -> bool {
    ||| stem == "CON"@ || stem == "PRN"@ || stem == "AUX"@ || stem == "NUL"@ || stem == "CONIN$"@ || stem == "CONOUT$"@
    ||| (starts_with(stem, "COM"@) || starts_with(stem, "LPT"@)) && byte_len(stem) == 4
}

/// The part of a name before its first dot.
pub open spec fn stem_of(segment: Seq<char>) -> Seq<char> {
    pieces(segment, '.')[0]
}

/// A path component that a file name may hold.
pub open spec fn segment_valid(segment: Seq<char>) -> bool {
    &&& segment.len() > 0
    &&& !starts_with(segment, "."@)
    &&& !ends_with(segment, "."@)
    &&& !ends_with(segment, " "@)
    &&& !is_device(stem_of(uppered(segment)))
}

pub open spec fn segments_valid(segments: Seq<Seq<char>>) -> bool {
    forall|i: int| 0 <= i < segments.len() ==> segment_valid(#[trigger] segments[i])
}

/// Why a relative file name is refused.
pub open spec fn name_fault(name: Seq<char>) -> Option<Fault> {
    if name.len() == 0 || byte_len(name) > 512 || name.contains('\\') || name.contains(':') || has_control(name) {
        Some(Fault::Denied("use a bounded relative path with forward slashes"@))
    } else if !segments_valid(pieces(name, '/')) {
        Some(Fault::Denied("invalid or protected path component"@))
    } else {
        None
    }
}

fn denied(message: &str) -> (e: ActionError)
    ensures
        e@ == Fault::Denied(message@),
{
    ActionError::Denied(copied(message))
}

fn segment_ok(segment: &str) -> (r: bool)
    ensures
        r == segment_valid(segment@),
{
    let raised = upper(segment);
    let parts = split(&raised, '.');
    let stem = &parts[0];
    assert(stem@ == texts(parts@)[0]);
    let device = same(stem, "CON") || same(stem, "PRN") || same(stem, "AUX") || same(stem, "NUL") || same(stem, "CONIN$")
        || same(stem, "CONOUT$") || ((begins(stem, "COM") || begins(stem, "LPT")) && utf8_len(stem) == 4);
    !segment.is_empty() && !begins(segment, ".") && !closes(segment, ".") && !closes(segment, " ") && !device
}

/// Checks a file name relative to the target.
pub fn validate_relative(name: &str) -> (r: Result<(), ActionError>)
    ensures
        match r {
            Ok(_) => name_fault(name@) is None,
            Err(e) => name_fault(name@) == Some(e@),
        },
{
    if name.is_empty() || utf8_len(name) > 512 || contains(name, '\\') || contains(name, ':') || controlled(name) {
        return Err(denied("use a bounded relative path with forward slashes"));
    }
    let list = split(name, '/');
    let mut i: usize = 0;
    while i < list.len()
        invariant
            i <= list.len(),
            texts(list@) == pieces(name@, '/'),
            !(name@.len() == 0 || byte_len(name@) > 512 || name@.contains('\\') || name@.contains(':') || has_control(name@)),
            forall|j: int| 0 <= j < i ==> segment_valid(#[trigger] texts(list@)[j]),
        decreases list.len() - i,
    {
        if !segment_ok(&list[i]) {
            assert(!segment_valid(texts(list@)[i as int]));
            return Err(denied("invalid or protected path component"));
        }
        i = i + 1;
    }
    Ok(())
}

// Paths on local disks.

pub open spec fn dos_message(fault: DosFault) -> Seq<char> {
    match fault {
        DosFault::NotLocal => "only local DOS paths are supported"@,
        DosFault::NotAbsolute => "absolute DOS path required"@,
        DosFault::NotRooted => "rooted DOS path required"@,
        DosFault::Alias => "path traversal or alias component rejected"@,
    }
}

/// The comparable names of a path, or why there are none.
pub open spec fn disk_names(parts: Seq<PartView>) -> Result<Seq<Seq<char>>, Fault> {
    match dos_components(parts) {
        Ok(list) => Ok(list),
        Err(f) => Err(Fault::Io(dos_message(f))),
    }
}

/// Whether a path lies under another on a local disk.
pub open spec fn lies_within(path: Seq<PartView>, root: Seq<PartView>) -> Result<bool, Fault> {
    match disk_names(path) {
        Err(f) => Err(f),
        Ok(p) => match disk_names(root) {
            Err(f) => Err(f),
            Ok(q) => Ok(begins_with(p, q)),
        },
    }
}

pub fn windows_components(parts: &Vec<Part>) -> (r: Result<Vec<String>, ActionError>)
    ensures
        match r {
            Ok(list) => disk_names(parts_of(parts@)) == Ok::<Seq<Seq<char>>, Fault>(texts(list@)),
            Err(e) => disk_names(parts_of(parts@)) == Err::<Seq<Seq<char>>, Fault>(e@),
        },
{
    match dos_path(parts) {
        Ok(list) => Ok(list),
        Err(f) => Err(
            ActionError::Io(
                match f {
                    DosFault::NotLocal => copied("only local DOS paths are supported"),
                    DosFault::NotAbsolute => copied("absolute DOS path required"),
                    DosFault::NotRooted => copied("rooted DOS path required"),
                    DosFault::Alias => copied("path traversal or alias component rejected"),
                },
            ),
        ),
    }
}

pub fn path_within(path: &Vec<Part>, root: &Vec<Part>) -> (r: Result<bool, ActionError>)
    ensures
        match r {
            Ok(b) => lies_within(parts_of(path@), parts_of(root@)) == Ok::<bool, Fault>(b),
            Err(e) => lies_within(parts_of(path@), parts_of(root@)) == Err::<bool, Fault>(e@),
        },
{
    match windows_components(path) {
        Err(e) => Err(e),
        Ok(p) => match windows_components(root) {
            Err(e) => Err(e),
            Ok(q) => Ok(names_begin(&p, &q)),
        },
    }
}

/// A path on a local disk without aliases.
pub open spec fn is_disk_path(absolute: bool, parts: Seq<PartView>) -> bool {
    &&& absolute
    &&& parts.len() > 0
    &&& parts[0] is Volume && parts[0]->volume is Disk
    &&& !climbs(parts)
    &&& !stays(parts)
}

/// Checks a directory before it is held open.
pub fn check_directory(absolute: bool, parts: &Vec<Part>) -> (r: Result<(), ActionError>)
    ensures
        match r {
            Ok(_) => is_disk_path(absolute, parts_of(parts@)),
            Err(e) => !is_disk_path(absolute, parts_of(parts@)) && e@ == Fault::Io(
                "only absolute local disk directories are supported"@,
            ),
        },
{
    let disk = if parts.len() == 0 {
        false
    } else {
        assert(parts_of(parts@)[0] == parts@[0]@);
        match &parts[0] {
            Part::Volume { volume: Volume::Disk(_), .. } => true,
            _ => false,
        }
    };
    if disk && absolute && !has_parent(parts) && !has_current(parts) {
        Ok(())
    } else {
        Err(ActionError::Io(copied("only absolute local disk directories are supported")))
    }
}

/// Checks what was opened on the way to a file.
pub fn verify_directory(directory: bool, linked: bool) -> (r: Result<(), ActionError>)
    ensures
        match r {
            Ok(_) => directory && !linked,
            Err(e) => !(directory && !linked) && e@ == Fault::Io("directory reparse points are forbidden"@),
        },
{
    if directory && !linked {
        Ok(())
    } else {
        Err(ActionError::Io(copied("directory reparse points are forbidden")))
    }
}

/// Why an opened object is not the one its path names.
pub open spec fn handle_fault(actual: Seq<PartView>, expected: Seq<PartView>) -> Option<Fault> {
    match disk_names(actual) {
        Err(f) => Some(f),
        Ok(p) => match disk_names(expected) {
            Err(f) => Some(f),
            Ok(q) => if p == q {
                None
            } else {
                Some(Fault::Io("opened object does not match its explicitly allowed path"@))
            },
        },
    }
}

/// Checks that an opened object is the one its path names, whatever the spelling.
pub fn verify_handle_path(actual: &Vec<Part>, expected: &Vec<Part>) -> (r: Result<(), ActionError>)
    ensures
        match r {
            Ok(_) => handle_fault(parts_of(actual@), parts_of(expected@)) is None,
            Err(e) => handle_fault(parts_of(actual@), parts_of(expected@)) == Some(e@),
        },
{
    match windows_components(actual) {
        Err(e) => Err(e),
        Ok(p) => match windows_components(expected) {
            Err(e) => Err(e),
            Ok(q) => {
                let equal = p.len() == q.len() && names_begin(&p, &q);
                proof {
                    if p.len() == q.len() {
                        assert(texts(p@).subrange(0, texts(q@).len() as int) =~= texts(p@));
                    } else {
                        assert(texts(p@).len() != texts(q@).len());
                    }
                }
                if equal {
                    Ok(())
                } else {
                    Err(ActionError::Io(copied("opened object does not match its explicitly allowed path")))
                }
            },
        },
    }
}

/// Checks what kind of object was opened.
pub fn verify_file(regular: bool, linked: bool, links: u64) -> (r: Result<(), ActionError>)
    ensures
        match r {
            Ok(_) => regular && !linked && links == 1,
            Err(e) => !(regular && !linked && links == 1) && e@ == Fault::Io(
                "only regular files without reparse points or hard links are allowed"@,
            ),
        },
{
    if regular && !linked && links == 1 {
        Ok(())
    } else {
        Err(ActionError::Io(copied("only regular files without reparse points or hard links are allowed")))
    }
}

// The scope.

/// The files of one target that actions may touch.
pub struct ScopedFiles {
    pub root: Location,
    pub allowed: Vec<String>,
    pub protected: Vec<Location>,
}

pub struct ScopeView {
    pub root: LocationView,
    pub allowed: Seq<Seq<char>>,
    pub protected: Seq<LocationView>,
}

impl View for ScopedFiles {
    type V = ScopeView;

    open spec fn view(&self) -> ScopeView {
        ScopeView { root: self.root@, allowed: texts(self.allowed@), protected: locations_of(self.protected@) }
    }
}

/// Why a protected path stands in the way of a target.
pub open spec fn shield_fault(root: Seq<PartView>, protected: LocationView) -> Option<Fault> {
    match lies_within(root, protected.parts) {
        Err(f) => Some(f),
        Ok(inside) => if inside { Some(Fault::Denied("target lies inside a protected path"@)) } else { None },
    }
}

pub open spec fn name_repeats(names: Seq<Seq<char>>, i: int) -> bool {
    exists|j: int| 0 <= j < i && #[trigger] names[j] == names[i]
}

pub open spec fn allowed_fault(names: Seq<Seq<char>>, i: int) -> Option<Fault> {
    if name_fault(names[i]) is Some {
        name_fault(names[i])
    } else if name_repeats(names, i) {
        Some(Fault::Denied("duplicate allowed file"@))
    } else {
        None
    }
}

/// Why a target is not taken.
pub open spec fn limits_fault(absolute: bool, given: Seq<PartView>, count: nat) -> Option<Fault> {
    if !absolute || count == 0 || count > 64 {
        Some(Fault::Denied("absolute target and 1..64 allowed files required"@))
    } else if controlled_path(given) {
        Some(Fault::Denied("target root cannot be inside a control directory"@))
    } else {
        None
    }
}

/// Why a resolved target is not taken.
pub open spec fn scope_fault(root: LocationView, names: Seq<Seq<char>>, protected: Seq<LocationView>) -> Option<Fault> {
    if controlled_path(root.parts) {
        Some(Fault::Denied("target root cannot be inside a control directory"@))
    } else {
        crate::faults::either(
            crate::faults::earliest(protected.len(), |i: int| shield_fault(root.parts, protected[i])),
            crate::faults::earliest(names.len(), |i: int| allowed_fault(names, i)),
        )
    }
}

/// Checks a target before anything is opened.
pub fn check_target(absolute: bool, given: &Vec<Part>, count: usize) -> (r: Result<(), ActionError>)
    ensures
        match r {
            Ok(_) => limits_fault(absolute, parts_of(given@), count as nat) is None,
            Err(e) => limits_fault(absolute, parts_of(given@), count as nat) == Some(e@),
        },
{
    if !absolute || count == 0 || count > 64 {
        return Err(denied("absolute target and 1..64 allowed files required"));
    }
    if in_control_directory(given) {
        return Err(denied("target root cannot be inside a control directory"));
    }
    Ok(())
}

fn repeats(names: &Vec<String>, i: usize) -> (r: bool)
    requires
        i < names.len(),
    ensures
        r == name_repeats(texts(names@), i as int),
{
    let ghost all = texts(names@);
    let mut j: usize = 0;
    while j < i
        invariant
            j <= i < names.len(),
            all == texts(names@),
            forall|k: int| 0 <= k < j ==> #[trigger] all[k] != all[i as int],
        decreases i - j,
    {
        if same(&names[j], &names[i]) {
            assert(all[j as int] == all[i as int]);
            return true;
        }
        assert(all[j as int] != all[i as int]);
        j = j + 1;
    }
    false
}

/// Why a file is not in scope once it was opened.
pub open spec fn opened_fault(s: ScopeView, actual: Seq<PartView>, expected: Seq<PartView>) -> Option<Fault> {
    crate::faults::either(
        handle_fault(actual, expected),
        match lies_within(actual, s.root.parts) {
            Err(f) => Some(f),
            Ok(inside) => if !inside {
                Some(Fault::Denied("file resolves to a protected or out-of-scope path"@))
            } else {
                crate::faults::earliest(s.protected.len(), |i: int| file_shield_fault(actual, s.protected[i]))
            },
        },
    )
}

pub open spec fn file_shield_fault(actual: Seq<PartView>, protected: LocationView) -> Option<Fault> {
    match lies_within(actual, protected.parts) {
        Err(f) => Some(f),
        Ok(inside) => if inside {
            Some(Fault::Denied("file resolves to a protected or out-of-scope path"@))
        } else {
            None
        },
    }
}

/// Why a name is not in scope.
pub open spec fn member_fault(s: ScopeView, name: Seq<char>) -> Option<Fault> {
    if name_fault(name) is Some {
        name_fault(name)
    } else if !s.allowed.contains(name) {
        Some(Fault::Denied("file not explicitly allowed"@))
    } else {
        None
    }
}

impl ScopedFiles {
    /// Takes a resolved target with its allowed files and the paths it must keep clear of.
    pub fn open(root: Location, allowed: &Vec<String>, protected: Vec<Location>) -> (r: Result<Self, ActionError>)
        ensures
            match r {
                Ok(s) => scope_fault(root@, texts(allowed@), locations_of(protected@)) is None && s@ == (ScopeView {
                    root: root@,
                    allowed: texts(allowed@),
                    protected: locations_of(protected@),
                }),
                Err(e) => scope_fault(root@, texts(allowed@), locations_of(protected@)) == Some(e@),
            },
    {
        if in_control_directory(&root.parts) {
            return Err(denied("target root cannot be inside a control directory"));
        }
        let ghost shields = locations_of(protected@);
        let ghost f = |i: int| shield_fault(root@.parts, shields[i]);
        let mut i: usize = 0;
        while i < protected.len()
            invariant
                i <= protected.len(),
                !controlled_path(root@.parts),
                shields == locations_of(protected@),
                f == (|k: int| shield_fault(root@.parts, shields[k])),
                crate::faults::earliest(i as nat, f) is None,
            decreases protected.len() - i,
        {
            let inside = path_within(&root.parts, &protected[i].parts);
            assert(shields[i as int] == protected@[i as int]@);
            assert(f(i as int) == shield_fault(root@.parts, shields[i as int]));
            match inside {
                Err(e) => {
                    proof {
                        assert(crate::faults::earliest((i + 1) as nat, f) == f(i as int));
                        crate::faults::earliest_sticks((i + 1) as nat, shields.len(), f);
                    }
                    return Err(e);
                },
                Ok(inside) => if inside {
                    proof {
                        assert(crate::faults::earliest((i + 1) as nat, f) == f(i as int));
                        crate::faults::earliest_sticks((i + 1) as nat, shields.len(), f);
                    }
                    return Err(denied("target lies inside a protected path"));
                },
            }
            i = i + 1;
        }
        let ghost names = texts(allowed@);
        let ghost g = |k: int| allowed_fault(names, k);
        let mut k: usize = 0;
        while k < allowed.len()
            invariant
                k <= allowed.len(),
                !controlled_path(root@.parts),
                crate::faults::earliest(shields.len(), f) is None,
                f == (|k: int| shield_fault(root@.parts, shields[k])),
                shields == locations_of(protected@),
                names == texts(allowed@),
                g == (|k: int| allowed_fault(names, k)),
                crate::faults::earliest(k as nat, g) is None,
            decreases allowed.len() - k,
        {
            let checked = validate_relative(&allowed[k]);
            assert(g(k as int) == allowed_fault(names, k as int));
            if let Err(e) = checked {
                proof {
                    assert(crate::faults::earliest((k + 1) as nat, g) == g(k as int));
                    crate::faults::earliest_sticks((k + 1) as nat, names.len(), g);
                }
                return Err(e);
            }
            if repeats(allowed, k) {
                proof {
                    assert(crate::faults::earliest((k + 1) as nat, g) == g(k as int));
                    crate::faults::earliest_sticks((k + 1) as nat, names.len(), g);
                }
                return Err(denied("duplicate allowed file"));
            }
            k = k + 1;
        }
        Ok(ScopedFiles { root, allowed: crate::text::copied_list(allowed), protected })
    }

    pub fn root(&self) -> (r: &Location)
        ensures
            r@ == self@.root,
    {
        &self.root
    }

    /// The allowed files, in order.
    pub fn allowed_files(&self) -> (r: Vec<String>)
        ensures
            forall|a: int, b: int| 0 <= a < b < r.len() ==> less(#[trigger] texts(r@)[a], #[trigger] texts(r@)[b]),
            forall|name: Seq<char>| #[trigger] texts(r@).contains(name) <==> self@.allowed.contains(name),
    {
        let ghost all = self@.allowed;
        let mut table: Table<()> = Table::new();
        let mut i: usize = 0;
        while i < self.allowed.len()
            invariant
                i <= self.allowed.len(),
                all == texts(self.allowed@),
                table.wf(),
                forall|name: Seq<char>| #[trigger]
                    table@.contains_key(name) <==> exists|j: int| 0 <= j < i && all[j] == name,
            decreases self.allowed.len() - i,
        {
            let ghost before = table@;
            table.insert(self.allowed[i].clone(), ());
            proof {
                assert forall|name: Seq<char>| #[trigger] table@.contains_key(name) <==> exists|j: int|
                    0 <= j < i + 1 && all[j] == name by {
                    if table@.contains_key(name) && name != all[i as int] {
                        assert(before.contains_key(name));
                    }
                    if exists|j: int| 0 <= j < i + 1 && all[j] == name {
                        let j = choose|j: int| 0 <= j < i + 1 && all[j] == name;
                        if j < i {
                            assert(before.contains_key(name));
                        }
                    }
                    assert(all[i as int] == self.allowed@[i as int]@);
                }
            }
            i = i + 1;
        }
        let mut r: Vec<String> = Vec::new();
        let mut k: usize = 0;
        while k < table.len()
            invariant
                k <= table.listed().len(),
                table.wf(),
                r.len() == k,
                forall|j: int| 0 <= j < k ==> (#[trigger] r@[j])@ == table.listed()[j].0@,
            decreases table.listed().len() - k,
        {
            r.push(table.key(k).clone());
            k = k + 1;
        }
        proof {
            assert forall|a: int, b: int| 0 <= a < b < r.len() implies less(
                #[trigger] texts(r@)[a],
                #[trigger] texts(r@)[b],
            ) by {
                assert(texts(r@)[a] == r@[a]@ && texts(r@)[b] == r@[b]@);
                assert(less(table.listed()[a].0@, table.listed()[b].0@));
            }
            assert forall|name: Seq<char>| #[trigger] texts(r@).contains(name) <==> all.contains(name) by {
                if texts(r@).contains(name) {
                    let j = choose|j: int| 0 <= j < texts(r@).len() && texts(r@)[j] == name;
                    assert(r@[j]@ == name);
                    table.entry_at(j);
                    assert(table@.contains_key(name));
                }
                if all.contains(name) {
                    let j = choose|j: int| 0 <= j < all.len() && all[j] == name;
                    assert(table@.contains_key(name));
                    let m = table.entry_of(name);
                    assert(r@[m]@ == name);
                    assert(texts(r@)[m] == name);
                }
            }
        }
        r
    }

    /// Checks a name before its file is opened.
    pub fn check_name(&self, name: &str) -> (r: Result<(), ActionError>)
        ensures
            match r {
                Ok(_) => member_fault(self@, name@) is None,
                Err(e) => member_fault(self@, name@) == Some(e@),
            },
    {
        if let Err(e) = validate_relative(name) {
            return Err(e);
        }
        if !listed(&self.allowed, name) {
            return Err(denied("file not explicitly allowed"));
        }
        Ok(())
    }

    /// Checks the object that was opened under an allowed name.
    pub fn check_opened(&self, actual: &Vec<Part>, expected: &Vec<Part>) -> (r: Result<(), ActionError>)
        ensures
            match r {
                Ok(_) => opened_fault(self@, parts_of(actual@), parts_of(expected@)) is None,
                Err(e) => opened_fault(self@, parts_of(actual@), parts_of(expected@)) == Some(e@),
            },
    {
        if let Err(e) = verify_handle_path(actual, expected) {
            return Err(e);
        }
        match path_within(actual, &self.root.parts) {
            Err(e) => {
                return Err(e);
            },
            Ok(inside) => if !inside {
                return Err(denied("file resolves to a protected or out-of-scope path"));
            },
        }
        let ghost shields = self@.protected;
        let ghost a = parts_of(actual@);
        let ghost f = |i: int| file_shield_fault(a, shields[i]);
        let mut i: usize = 0;
        while i < self.protected.len()
            invariant
                i <= self.protected.len(),
                a == parts_of(actual@),
                handle_fault(a, parts_of(expected@)) is None,
                lies_within(a, self@.root.parts) == Ok::<bool, Fault>(true),
                shields == locations_of(self.protected@),
                shields == self@.protected,
                f == (|k: int| file_shield_fault(a, shields[k])),
                crate::faults::earliest(i as nat, f) is None,
            decreases self.protected.len() - i,
        {
            let inside = path_within(actual, &self.protected[i].parts);
            assert(shields[i as int] == self.protected@[i as int]@);
            assert(f(i as int) == file_shield_fault(a, shields[i as int]));
            match inside {
                Err(e) => {
                    proof {
                        assert(crate::faults::earliest((i + 1) as nat, f) == f(i as int));
                        crate::faults::earliest_sticks((i + 1) as nat, shields.len(), f);
                    }
                    return Err(e);
                },
                Ok(inside) => if inside {
                    proof {
                        assert(crate::faults::earliest((i + 1) as nat, f) == f(i as int));
                        crate::faults::earliest_sticks((i + 1) as nat, shields.len(), f);
                    }
                    return Err(denied("file resolves to a protected or out-of-scope path"));
                },
            }
            i = i + 1;
        }
        Ok(())
    }
}

// Reads and writes.

/// What a read of `len` bytes means; `text` is their decoding, if they are UTF-8.
pub fn read_bounded(len: u64, text: Option<String>) -> (r: Result<String, ActionError>)
    ensures
        match r {
            Ok(t) => len <= MAX_FILE_BYTES && text is Some && t@ == text->0@,
            Err(e) => if len > MAX_FILE_BYTES {
                e@ == Fault::Io("file exceeds 16 KiB"@)
            } else {
                text is None && e@ == Fault::Io("file is not UTF-8"@)
            },
        },
{
    if len > MAX_FILE_BYTES as u64 {
        return Err(ActionError::Io(copied("file exceeds 16 KiB")));
    }
    match text {
        Some(t) => Ok(t),
        None => Err(ActionError::Io(copied("file is not UTF-8"))),
    }
}

/// Checks the size of an edit before its file is opened.
pub fn check_edit(edit: &TextEdit) -> (r: Result<(), ActionError>)
    ensures
        match r {
            Ok(_) => byte_len(edit@.expected) <= MAX_FILE_BYTES && byte_len(edit@.replacement) <= MAX_FILE_BYTES,
            Err(e) => (byte_len(edit@.expected) > MAX_FILE_BYTES || byte_len(edit@.replacement) > MAX_FILE_BYTES) && e@
                == Fault::Denied("text exceeds 16 KiB"@),
        },
{
    if utf8_len(&edit.expected) > MAX_FILE_BYTES || utf8_len(&edit.replacement) > MAX_FILE_BYTES {
        return Err(denied("text exceeds 16 KiB"));
    }
    Ok(())
}

/// Checks that the file still holds what the edit expects.
pub fn check_content(edit: &TextEdit, current: &str) -> (r: Result<(), ActionError>)
    ensures
        match r {
            Ok(_) => current@ == edit@.expected,
            Err(e) => current@ != edit@.expected && e@ == Fault::Changed,
        },
{
    if same(current, &edit.expected) {
        Ok(())
    } else {
        Err(ActionError::Changed)
    }
}

/// What a write amounts to: `written` is the file's content read back, or the failure of
/// any step since the first byte was written.
pub fn receipt(edit: &TextEdit, written: Result<String, String>) -> (r: Result<ActionReceipt, ActionError>)
    ensures
        match r {
            Ok(x) => written is Ok && written->Ok_0@ == edit@.replacement && x.path@ == edit@.path && x.bytes_written
                == byte_len(edit@.replacement) && x.content_verified,
            Err(e) => match written {
                Err(m) => e@ == Fault::Unknown(m@),
                Ok(t) => t@ != edit@.replacement && e@ == Fault::Unknown("read-back did not match approved replacement"@),
            },
        },
{
    match written {
        Err(m) => Err(ActionError::Unknown(m)),
        Ok(t) => if same(&t, &edit.replacement) {
            Ok(ActionReceipt { path: edit.path.clone(), bytes_written: utf8_len(&edit.replacement), content_verified: true })
        } else {
            Err(ActionError::Unknown(copied("read-back did not match approved replacement")))
        },
    }
}

/// A file that was opened in scope lies under the target and under no protected path.
pub proof fn opened_files_are_in_scope(s: ScopeView, actual: Seq<PartView>, expected: Seq<PartView>, i: int)
    requires
        opened_fault(s, actual, expected) is None,
        0 <= i < s.protected.len(),
    ensures
        lies_within(actual, s.root.parts) == Ok::<bool, Fault>(true),
        lies_within(actual, s.protected[i].parts) == Ok::<bool, Fault>(false),
        disk_names(actual) == disk_names(expected),
{
    let f = |k: int| file_shield_fault(actual, s.protected[k]);
    crate::faults::earliest_none(s.protected.len(), f);
    assert(f(i) is None);
}

/// Only files of the configured list are ever opened.
pub proof fn only_listed_files_open(s: ScopeView, name: Seq<char>)
    requires
        member_fault(s, name) is None,
    ensures
        s.allowed.contains(name),
        !name.contains('\\'),
        !name.contains(':'),
{
}

} // verus!
