//! Shared trusted configuration rules for command-line and HTTP host assembly.
//!
//! The caller resolves paths and looks at links; where configuration, state and target may
//! lie is decided here.
use crate::harnesses::HarnessError;
use crate::paths::{
    ascend, copied_locations, first_of_its_path, is_under, listed, locations_of, ordered, ordering_keeps_every_path, parts_of,
    sort_unique, under, Location, LocationView, Part, PartView,
};
use crate::recovery::workflow::{invalid, refuse, reports, Fault, WorkflowError};
use crate::text::{begins, copied, lower, lowered, same, starts_with, strip, texts};
use vstd::prelude::*;

verus! {

pub const MAX_CONFIG_BYTES: usize = 65536;

/// Checks a repair configuration before it is decoded.
pub fn check_repair_file(regular: bool, bytes: usize) -> (r: Result<(), WorkflowError>)
    ensures
        reports(
            r,
            if !regular {
                Some(invalid("repair configuration must be a file"@))
            } else if bytes > MAX_CONFIG_BYTES {
                Some(invalid("repair configuration exceeds 64 KiB"@))
            } else {
                None
            },
        ),
{
    if !regular {
        return Err(refuse("repair configuration must be a file"));
    }
    if bytes > MAX_CONFIG_BYTES {
        return Err(refuse("repair configuration exceeds 64 KiB"));
    }
    Ok(())
}

/// What the system says of a path or of one of its ancestors.
pub fn check_link(reparse: bool, symlink: bool) -> (r: Result<(), WorkflowError>)
    ensures
        reports(
            r,
            if reparse {
                Some(invalid("reparse points in configuration or runtime paths are forbidden"@))
            } else if symlink {
                Some(invalid("linked configuration/runtime paths are forbidden"@))
            } else {
                None
            },
        ),
{
    if reparse {
        return Err(refuse("reparse points in configuration or runtime paths are forbidden"));
    }
    if symlink {
        return Err(refuse("linked configuration/runtime paths are forbidden"));
    }
    Ok(())
}

// Normal paths.

/// The parts with the current and parent directories resolved by name alone.
pub open spec fn resolved(parts: Seq<PartView>) -> Result<Seq<PartView>, Fault>
    decreases parts.len(),
{
    if parts.len() == 0 {
        Ok(parts)
    } else {
        match resolved(parts.drop_last()) {
            Err(f) => Err(f),
            Ok(out) => match parts.last() {
                PartView::Current => Ok(out),
                PartView::Parent => if out.len() > 0 && out.last() is Name {
                    Ok(out.drop_last())
                } else {
                    Err(invalid("path escapes filesystem root"@))
                },
                other => Ok(out.push(other)),
            },
        }
    }
}

/// Rooted on Unix; on a volume and rooted on Windows.
pub open spec fn is_absolute(windows: bool, parts: Seq<PartView>) -> bool {
    if windows {
        parts.len() > 1 && parts[0] is Volume && parts[1] is Root
    } else {
        parts.len() > 0 && parts[0] is Root
    }
}

pub open spec fn normal(windows: bool, parts: Seq<PartView>) -> Result<Seq<PartView>, Fault> {
    match resolved(parts) {
        Err(f) => Err(f),
        Ok(out) => if is_absolute(windows, out) { Ok(out) } else { Err(invalid("absolute path required"@)) },
    }
}

proof fn escapes(parts: Seq<PartView>, i: int)
    requires
        0 <= i <= parts.len(),
        resolved(parts.subrange(0, i)) is Err,
    ensures
        resolved(parts) == resolved(parts.subrange(0, i)),
    decreases parts.len() - i,
{
    if i == parts.len() {
        assert(parts.subrange(0, i) =~= parts);
    } else {
        assert(parts.subrange(0, i + 1).drop_last() =~= parts.subrange(0, i));
        escapes(parts, i + 1);
    }
}

/// Resolves a path by its parts alone; the result is absolute.
pub fn absolute_normal(windows: bool, parts: &Vec<Part>) -> (r: Result<Vec<Part>, WorkflowError>)
    ensures
        match r {
            Ok(out) => normal(windows, parts_of(parts@)) == Ok::<Seq<PartView>, Fault>(parts_of(out@)),
            Err(e) => normal(windows, parts_of(parts@)) == Err::<Seq<PartView>, Fault>(e@),
        },
{
    let ghost all = parts_of(parts@);
    let mut out: Vec<Part> = Vec::new();
    let mut i: usize = 0;
    assert(all.subrange(0, 0) =~= Seq::<PartView>::empty());
    assert(parts_of(out@) =~= Seq::<PartView>::empty());
    while i < parts.len()
        invariant
            i <= parts.len(),
            all == parts_of(parts@),
            resolved(all.subrange(0, i as int)) == Ok::<Seq<PartView>, Fault>(parts_of(out@)),
        decreases parts.len() - i,
    {
        let ghost before = parts_of(out@);
        let ghost now = all.subrange(0, i + 1);
        proof {
            assert(now.drop_last() =~= all.subrange(0, i as int));
            assert(now.last() == parts@[i as int]@);
        }
        match &parts[i] {
            Part::Current => {},
            Part::Parent => {
                let named = if out.len() == 0 {
                    false
                } else {
                    assert(before.last() == out@[out.len() - 1]@);
                    match &out[out.len() - 1] {
                        Part::Name(_) => true,
                        _ => false,
                    }
                };
                if !named {
                    proof {
                        escapes(all, i + 1);
                    }
                    return Err(refuse("path escapes filesystem root"));
                }
                let _gone = out.pop();
                assert(parts_of(out@) =~= before.drop_last());
            },
            other => {
                out.push(other.clone());
                assert(parts_of(out@) =~= before.push(now.last()));
            },
        }
        i = i + 1;
    }
    assert(all.subrange(0, i as int) =~= all);
    let rooted = if windows {
        if out.len() > 1 {
            assert(parts_of(out@)[0] == out@[0]@ && parts_of(out@)[1] == out@[1]@);
            let volume = match &out[0] {
                Part::Volume { .. } => true,
                _ => false,
            };
            let root = match &out[1] {
                Part::Root => true,
                _ => false,
            };
            volume && root
        } else {
            false
        }
    } else if out.len() > 0 {
        assert(parts_of(out@)[0] == out@[0]@);
        match &out[0] {
            Part::Root => true,
            _ => false,
        }
    } else {
        false
    };
    if !rooted {
        return Err(refuse("absolute path required"));
    }
    Ok(out)
}

// Where things lie.

/// Where a repair's files lie. `source` is the project's source tree, if it is there.
pub struct RepairPlaces {
    pub path: Location,
    pub harness_config: Location,
    pub extensions_config: Option<Location>,
    pub target_root: Location,
    pub reviewer_directory: Location,
    pub source: Option<Location>,
}

pub struct PlacesView {
    pub path: LocationView,
    pub harness_config: LocationView,
    pub extensions_config: Option<LocationView>,
    pub target_root: LocationView,
    pub reviewer_directory: LocationView,
    pub source: Option<LocationView>,
}

pub open spec fn maybe(l: Option<Location>) -> Option<LocationView> {
    match l {
        Some(l) => Some(l@),
        None => None,
    }
}

impl View for RepairPlaces {
    type V = PlacesView;

    open spec fn view(&self) -> PlacesView {
        PlacesView {
            path: self.path@,
            harness_config: self.harness_config@,
            extensions_config: maybe(self.extensions_config),
            target_root: self.target_root@,
            reviewer_directory: self.reviewer_directory@,
            source: maybe(self.source),
        }
    }
}

pub open spec fn inside(l: LocationView, root: LocationView) -> bool {
    is_under(l.parts, root.parts)
}

pub open spec fn maybe_inside(l: Option<LocationView>, root: LocationView) -> bool {
    l is Some && inside(l->0, root)
}

/// Why the configuration of a repair is refused for where it lies.
pub open spec fn places_fault(p: PlacesView) -> Option<Fault> {
    if p.source is Some && (inside(p.path, p.source->0) || inside(p.harness_config, p.source->0) || maybe_inside(
        p.extensions_config,
        p.source->0,
    )) {
        Some(invalid("active configurations must be outside the project source tree"@))
    } else if inside(p.path, p.target_root) || inside(p.harness_config, p.target_root) || inside(
        p.reviewer_directory,
        p.target_root,
    ) || maybe_inside(p.extensions_config, p.target_root) {
        Some(invalid("configuration and review context must be outside the repair target"@))
    } else {
        None
    }
}

/// Why a state directory is refused for where it lies.
pub open spec fn state_fault(p: PlacesView, state: LocationView) -> Option<Fault> {
    if inside(state, p.target_root) || (p.source is Some && inside(state, p.source->0)) {
        Some(invalid("state directory must be outside target and source"@))
    } else {
        None
    }
}

fn within(l: &Location, root: &Location) -> (r: bool)
    ensures
        r == inside(l@, root@),
{
    under(&l.parts, &root.parts)
}

fn maybe_within(l: &Option<Location>, root: &Location) -> (r: bool)
    ensures
        r == maybe_inside(maybe(*l), root@),
{
    match l {
        None => false,
        Some(l) => within(l, root),
    }
}

/// Whether a configured path is resolved before it is used: only for commands that touch
/// the target, and where the approver works on a node, not the path that its directory is
/// given as. `place` is normalized; `given` is the approver's directory as it was written.
pub fn must_resolve(needs_target: bool, place: &Location, given: &Location, reviewer_remote: bool) -> (r: bool)
    ensures
        r == (needs_target && (place@.parts != given@.parts || !reviewer_remote)),
{
    needs_target && (!reviewer_remote || !place.equals(given))
}

/// The paths that a repair's target must keep clear of.
pub open spec fn protected_by(
    p: PlacesView,
    data_dir: LocationView,
    installation: LocationView,
    packages: Seq<LocationView>,
) -> Seq<LocationView> {
    let base = seq![p.path, p.harness_config, data_dir, p.reviewer_directory, installation];
    let with_source = match p.source {
        Some(s) => base.push(s),
        None => base,
    };
    match p.extensions_config {
        Some(e) => with_source.push(e) + packages,
        None => with_source,
    }
}

impl RepairPlaces {
    /// Checks where the configuration lies.
    pub fn check(&self) -> (r: Result<(), WorkflowError>)
        ensures
            reports(r, places_fault(self@)),
    {
        if let Some(s) = &self.source {
            if within(&self.path, s) || within(&self.harness_config, s) || maybe_within(&self.extensions_config, s) {
                return Err(refuse("active configurations must be outside the project source tree"));
            }
        }
        if within(&self.path, &self.target_root) || within(&self.harness_config, &self.target_root) || within(
            &self.reviewer_directory,
            &self.target_root,
        ) || maybe_within(&self.extensions_config, &self.target_root) {
            return Err(refuse("configuration and review context must be outside the repair target"));
        }
        Ok(())
    }

    /// Checks where the state lies.
    pub fn check_state(&self, state: &Location) -> (r: Result<(), WorkflowError>)
        ensures
            reports(r, state_fault(self@, state@)),
    {
        let in_source = match &self.source {
            Some(s) => within(state, s),
            None => false,
        };
        if within(state, &self.target_root) || in_source {
            return Err(refuse("state directory must be outside target and source"));
        }
        Ok(())
    }

    /// The paths that the target must keep clear of; `packages` are those of the extensions.
    pub fn protected(&self, data_dir: &Location, installation: &Location, packages: &Vec<Location>) -> (r: Vec<Location>)
        ensures
            locations_of(r@) == protected_by(self@, data_dir@, installation@, locations_of(packages@)),
    {
        let mut r: Vec<Location> = Vec::new();
        r.push(self.path.clone());
        r.push(self.harness_config.clone());
        r.push(data_dir.clone());
        r.push(self.reviewer_directory.clone());
        r.push(installation.clone());
        let ghost base = seq![
            self@.path,
            self@.harness_config,
            data_dir@,
            self@.reviewer_directory,
            installation@,
        ];
        assert(locations_of(r@) =~= base);
        if let Some(s) = &self.source {
            r.push(s.clone());
            assert(locations_of(r@) =~= base.push(s@));
        }
        let ghost so_far = locations_of(r@);
        if let Some(e) = &self.extensions_config {
            r.push(e.clone());
            let mut i: usize = 0;
            assert(locations_of(r@) =~= so_far.push(e@) + locations_of(packages@).subrange(0, 0));
            while i < packages.len()
                invariant
                    i <= packages.len(),
                    locations_of(r@) == so_far.push(e@) + locations_of(packages@).subrange(0, i as int),
                decreases packages.len() - i,
            {
                let ghost before = locations_of(r@);
                r.push(packages[i].clone());
                assert(locations_of(r@) =~= before.push(packages@[i as int]@));
                assert(locations_of(r@) =~= so_far.push(e@) + locations_of(packages@).subrange(0, i + 1));
                i = i + 1;
            }
            assert(locations_of(packages@).subrange(0, i as int) =~= locations_of(packages@));
        }
        r
    }
}

/// A program that a server runs, and those of its arguments that are files.
pub struct Launched {
    pub program: Location,
    pub files: Vec<Location>,
}

pub struct LaunchedView {
    pub program: LocationView,
    pub files: Seq<LocationView>,
}

impl View for Launched {
    type V = LaunchedView;

    open spec fn view(&self) -> LaunchedView {
        LaunchedView { program: self.program@, files: locations_of(self.files@) }
    }
}

pub open spec fn launches(list: Seq<Launched>) -> Seq<LaunchedView> {
    list.map_values(|l: Launched| l@)
}

/// What a server reads, writes and runs beside a repair.
pub struct ServerPlaces {
    /// Configuration files of the server itself.
    pub configurations: Vec<Location>,
    pub data_dir: Location,
    pub token_file: Location,
    pub monitors_config: Option<Location>,
    pub extensions_config: Option<Location>,
    /// What the configured extensions consist of: see `extension_protected_paths`.
    pub packages: Vec<Location>,
    /// The programs of the extensions that run.
    pub programs: Vec<Launched>,
}

pub struct ServerPlacesView {
    pub configurations: Seq<LocationView>,
    pub data_dir: LocationView,
    pub token_file: LocationView,
    pub monitors_config: Option<LocationView>,
    pub extensions_config: Option<LocationView>,
    pub packages: Seq<LocationView>,
    pub programs: Seq<LaunchedView>,
}

impl View for ServerPlaces {
    type V = ServerPlacesView;

    open spec fn view(&self) -> ServerPlacesView {
        ServerPlacesView {
            configurations: locations_of(self.configurations@),
            data_dir: self.data_dir@,
            token_file: self.token_file@,
            monitors_config: maybe(self.monitors_config),
            extensions_config: maybe(self.extensions_config),
            packages: locations_of(self.packages@),
            programs: launches(self.programs@),
        }
    }
}

/// The programs and their files, program by program.
pub open spec fn launched(programs: Seq<LaunchedView>) -> Seq<LocationView>
    decreases programs.len(),
{
    if programs.len() == 0 {
        Seq::empty()
    } else {
        launched(programs.drop_last()).push(programs.last().program) + programs.last().files
    }
}

/// The paths that the target of a repair in a server must keep clear of; `repair` are
/// those that the repair's own configuration names.
pub open spec fn exposed_by(p: ServerPlacesView, repair: Seq<LocationView>) -> Seq<LocationView> {
    let base = (repair + p.configurations).push(p.data_dir).push(p.token_file);
    let monitored = match p.monitors_config {
        Some(m) => base.push(m),
        None => base,
    };
    let extended = match p.extensions_config {
        Some(e) => monitored.push(e) + p.packages,
        None => monitored,
    };
    extended + launched(p.programs)
}

fn append_all(r: &mut Vec<Location>, list: &Vec<Location>)
    ensures
        locations_of(final(r)@) == locations_of(old(r)@) + locations_of(list@),
{
    let ghost was = locations_of(r@);
    let mut i: usize = 0;
    assert(was =~= was + locations_of(list@).subrange(0, 0));
    while i < list.len()
        invariant
            i <= list.len(),
            locations_of(r@) == was + locations_of(list@).subrange(0, i as int),
        decreases list.len() - i,
    {
        let ghost before = locations_of(r@);
        r.push(list[i].clone());
        assert(locations_of(r@) =~= before.push(list@[i as int]@));
        assert(locations_of(r@) =~= was + locations_of(list@).subrange(0, i + 1));
        i = i + 1;
    }
    assert(locations_of(list@).subrange(0, i as int) =~= locations_of(list@));
}

fn append_one(r: &mut Vec<Location>, item: &Location)
    ensures
        locations_of(final(r)@) == locations_of(old(r)@).push(item@),
{
    let ghost was = locations_of(r@);
    r.push(item.clone());
    assert(locations_of(r@) =~= was.push(item@));
}

impl ServerPlaces {
    /// Lists the paths that the target of a repair must keep clear of.
    pub fn exposed(&self, repair: &Vec<Location>) -> (r: Vec<Location>)
        ensures
            locations_of(r@) == exposed_by(self@, locations_of(repair@)),
    {
        let mut r: Vec<Location> = copied_locations(repair);
        append_all(&mut r, &self.configurations);
        append_one(&mut r, &self.data_dir);
        append_one(&mut r, &self.token_file);
        if let Some(m) = &self.monitors_config {
            append_one(&mut r, m);
        }
        if let Some(e) = &self.extensions_config {
            append_one(&mut r, e);
            append_all(&mut r, &self.packages);
        }
        let ghost so_far = locations_of(r@);
        let ghost all = launches(self.programs@);
        let mut i: usize = 0;
        assert(all.subrange(0, 0) =~= Seq::<LaunchedView>::empty());
        assert(so_far =~= so_far + launched(all.subrange(0, 0)));
        while i < self.programs.len()
            invariant
                i <= self.programs.len(),
                all == launches(self.programs@),
                locations_of(r@) == so_far + launched(all.subrange(0, i as int)),
            decreases self.programs.len() - i,
        {
            let ghost now = all.subrange(0, i + 1);
            proof {
                assert(now.drop_last() =~= all.subrange(0, i as int));
                assert(now.last() == self.programs@[i as int]@);
            }
            append_one(&mut r, &self.programs[i].program);
            append_all(&mut r, &self.programs[i].files);
            assert(locations_of(r@) =~= so_far + launched(now));
            i = i + 1;
        }
        assert(all.subrange(0, i as int) =~= all);
        r
    }
}

// Extension packages.

/// An argument that may be a local file; `explicit` if it must be one.
pub struct Candidate {
    pub value: String,
    pub explicit: bool,
}

pub struct CandidateView {
    pub value: Seq<char>,
    pub explicit: bool,
}

impl View for Candidate {
    type V = CandidateView;

    open spec fn view(&self) -> CandidateView {
        CandidateView { value: self.value@, explicit: self.explicit }
    }
}

pub open spec fn candidates_of(list: Seq<Candidate>) -> Seq<CandidateView> {
    list.map_values(|c: Candidate| c@)
}

pub open spec fn is_ssh(name: Seq<char>) -> bool {
    lowered(name) == "ssh"@ || lowered(name) == "ssh.exe"@
}

pub open spec fn bare(arg: Seq<char>) -> Seq<char> {
    if starts_with(arg, "--config="@) { arg.skip("--config="@.len() as int) } else { arg }
}

/// The candidates among the arguments, and whether the last one asks for a path that does
/// not follow. Arguments of an SSH transport are the remote side's.
pub open spec fn gleaned(args: Seq<Seq<char>>, ssh: bool) -> (Seq<CandidateView>, bool)
    decreases args.len(),
{
    if args.len() == 0 {
        (Seq::empty(), false)
    } else {
        let (list, asked) = gleaned(args.drop_last(), ssh);
        let arg = args.last();
        if !ssh && arg == "--config"@ {
            (list, true)
        } else {
            let explicit = !ssh && (asked || starts_with(arg, "--config="@));
            (list.push(CandidateView { value: bare(arg), explicit }), false)
        }
    }
}

/// The arguments of an extension's program that may be local files.
pub fn glean(program_name: Option<&str>, args: &Vec<String>) -> (r: (Vec<Candidate>, bool))
    ensures
        (candidates_of(r.0@), r.1) == gleaned(
            texts(args@),
            match program_name {
                Some(n) => is_ssh(n@),
                None => false,
            },
        ),
{
    let ssh = match program_name {
        Some(n) => {
            let name = lower(n);
            same(&name, "ssh") || same(&name, "ssh.exe")
        },
        None => false,
    };
    let ghost all = texts(args@);
    let mut list: Vec<Candidate> = Vec::new();
    let mut asked = false;
    let mut i: usize = 0;
    assert(all.subrange(0, 0) =~= Seq::<Seq<char>>::empty());
    assert(candidates_of(list@) =~= Seq::<CandidateView>::empty());
    while i < args.len()
        invariant
            i <= args.len(),
            all == texts(args@),
            (candidates_of(list@), asked) == gleaned(all.subrange(0, i as int), ssh),
        decreases args.len() - i,
    {
        let arg = &args[i];
        let ghost now = all.subrange(0, i + 1);
        let ghost before = candidates_of(list@);
        proof {
            assert(now.drop_last() =~= all.subrange(0, i as int));
            assert(now.last() == arg@);
        }
        if !ssh && same(arg, "--config") {
            asked = true;
        } else {
            let explicit = !ssh && (asked || begins(arg, "--config="));
            let value = match strip(arg, "--config=") {
                Some(v) => v,
                None => arg.clone(),
            };
            list.push(Candidate { value, explicit });
            assert(candidates_of(list@) =~= before.push(CandidateView { value: bare(arg@), explicit }));
            asked = false;
        }
        i = i + 1;
    }
    assert(all.subrange(0, i as int) =~= all);
    (list, asked)
}

/// What an extension without the path it asks for is answered.
pub fn check_dangling(asked: bool) -> (r: Result<(), WorkflowError>)
    ensures
        reports(
            r,
            if asked { Some(invalid("extension --config requires a local configuration path"@)) } else { None },
        ),
{
    if asked {
        return Err(refuse("extension --config requires a local configuration path"));
    }
    Ok(())
}

pub open spec fn overlaps(l: LocationView, target: LocationView) -> bool {
    inside(l, target) || inside(target, l)
}

pub open spec fn some_overlap(list: Seq<LocationView>, target: LocationView) -> bool {
    exists|i: int| 0 <= i < list.len() && overlaps(#[trigger] list[i], target)
}

/// A configured extension whose paths have been resolved.
pub struct ResolvedExtension {
    pub program: Location,
    /// The directory that holds the program.
    pub package: Location,
    pub cwd: Location,
    pub args: Vec<String>,
    /// Where each candidate among the arguments lies, in their order; nothing for one that
    /// is no file.
    pub files: Vec<Option<Location>>,
}

pub struct ResolvedView {
    pub program: LocationView,
    pub package: LocationView,
    pub cwd: LocationView,
    pub args: Seq<Seq<char>>,
    pub files: Seq<Option<LocationView>>,
}

impl View for ResolvedExtension {
    type V = ResolvedView;

    open spec fn view(&self) -> ResolvedView {
        ResolvedView {
            program: self.program@,
            package: self.package@,
            cwd: self.cwd@,
            args: texts(self.args@),
            files: self.files@.map_values(|l: Option<Location>| maybe(l)),
        }
    }
}

pub open spec fn resolutions(list: Seq<ResolvedExtension>) -> Seq<ResolvedView> {
    list.map_values(|e: ResolvedExtension| e@)
}

/// The last name of a path, if it ends in one.
pub open spec fn last_name(parts: Seq<PartView>) -> Option<Seq<char>> {
    if parts.len() == 0 {
        None
    } else {
        match parts.last() {
            PartView::Name(n) => Some(n),
            _ => None,
        }
    }
}

pub fn file_name(path: &Location) -> (r: Option<&str>)
    ensures
        match r {
            Some(n) => last_name(path@.parts) == Some(n@),
            None => last_name(path@.parts) is None,
        },
{
    let n: usize = path.parts.len();
    if n == 0 {
        return None;
    }
    let last = &path.parts[n - 1];
    assert(path@.parts.last() == last@);
    match last {
        Part::Name(name) => Some(name.as_str()),
        _ => None,
    }
}

/// Whether a program is an SSH transport.
pub open spec fn transports(program: LocationView) -> bool {
    last_name(program.parts) is Some && is_ssh(last_name(program.parts)->0)
}

/// Where a candidate lies.
pub open spec fn place_of(e: ResolvedView, i: int) -> Option<LocationView> {
    if i < e.files.len() { e.files[i] } else { None }
}

/// The places of the first `n` candidates that have one.
pub open spec fn found_places(e: ResolvedView, n: nat) -> Seq<LocationView>
    decreases n,
{
    if n == 0 {
        Seq::empty()
    } else {
        let front = found_places(e, (n - 1) as nat);
        match place_of(e, n - 1) {
            Some(l) => front.push(l),
            None => front,
        }
    }
}

/// Whether all of the first `n` candidates that must be local files have a place.
pub open spec fn all_found(e: ResolvedView, list: Seq<CandidateView>, n: nat) -> bool {
    forall|i: int| 0 <= i < n ==> (#[trigger] list[i]).explicit ==> place_of(e, i) is Some
}

/// Whether the package is the directory that holds the program.
pub open spec fn packaged(e: ResolvedView) -> bool {
    e.program.parts.len() > 0 && e.package.parts == e.program.parts.drop_last()
}

/// The paths of one extension: its program, the directory of the program, its working
/// directory and the local files among its arguments.
pub open spec fn extension_places(e: ResolvedView) -> Result<Seq<LocationView>, Fault> {
    let (list, asked) = gleaned(e.args, transports(e.program));
    if !packaged(e) {
        Err(invalid("extension executable has no parent"@))
    } else if asked || !all_found(e, list, list.len()) {
        Err(invalid("extension --config requires a local configuration path"@))
    } else {
        Ok(seq![e.program, e.package, e.cwd] + found_places(e, list.len()))
    }
}

/// The configuration file and the paths of all its extensions.
pub open spec fn gathered(file: LocationView, list: Seq<ResolvedView>) -> Result<Seq<LocationView>, Fault>
    decreases list.len(),
{
    if list.len() == 0 {
        Ok(seq![file])
    } else {
        match gathered(file, list.drop_last()) {
            Err(f) => Err(f),
            Ok(some) => match extension_places(list.last()) {
                Err(f) => Err(f),
                Ok(more) => Ok(some + more),
            },
        }
    }
}

/// What a repair of this target must keep clear of.
pub open spec fn protection(file: LocationView, list: Seq<ResolvedView>, target: LocationView) -> Result<
    Seq<LocationView>,
    Fault,
> {
    match gathered(file, list) {
        Err(f) => Err(f),
        Ok(paths) => if some_overlap(paths, target) {
            Err(invalid("repair target overlaps extension configuration, program or package context"@))
        } else {
            Ok(ordered(paths))
        },
    }
}

/// A refused prefix refuses the whole.
proof fn refusal_stays(file: LocationView, list: Seq<ResolvedView>, n: int)
    requires
        0 <= n <= list.len(),
        gathered(file, list.subrange(0, n)) is Err,
    ensures
        gathered(file, list) == gathered(file, list.subrange(0, n)),
    decreases list.len() - n,
{
    if n == list.len() {
        assert(list.subrange(0, n) =~= list);
    } else {
        assert(list.subrange(0, n + 1).drop_last() =~= list.subrange(0, n));
        refusal_stays(file, list, n + 1);
    }
}

fn is_package(e: &ResolvedExtension) -> (r: bool)
    ensures
        r == packaged(e@),
{
    let n: usize = e.program.parts.len();
    if n == 0 || e.package.parts.len() != n - 1 {
        assert(e@.package.parts.len() == e.package.parts.len());
        return false;
    }
    let r = under(&e.program.parts, &e.package.parts);
    assert(e@.program.parts.subrange(0, n - 1) =~= e@.program.parts.drop_last());
    r
}

/// Lists the paths of one extension.
pub fn resolved_places(e: &ResolvedExtension) -> (r: Result<Vec<Location>, WorkflowError>)
    ensures
        match r {
            Ok(list) => extension_places(e@) == Ok::<Seq<LocationView>, Fault>(locations_of(list@)),
            Err(f) => extension_places(e@) == Err::<Seq<LocationView>, Fault>(f@),
        },
{
    let (candidates, asked) = glean(file_name(&e.program), &e.args);
    let ghost list = candidates_of(candidates@);
    assert((list, asked) == gleaned(e@.args, transports(e@.program)));
    if !is_package(e) {
        return Err(refuse("extension executable has no parent"));
    }
    if asked {
        return Err(refuse("extension --config requires a local configuration path"));
    }
    let mut r: Vec<Location> = Vec::new();
    append_one(&mut r, &e.program);
    append_one(&mut r, &e.package);
    append_one(&mut r, &e.cwd);
    let ghost head = seq![e@.program, e@.package, e@.cwd];
    let mut i: usize = 0;
    assert(locations_of(r@) =~= head + found_places(e@, 0));
    while i < candidates.len()
        invariant
            i <= candidates.len(),
            list == candidates_of(candidates@),
            (list, false) == gleaned(e@.args, transports(e@.program)),
            packaged(e@),
            all_found(e@, list, i as nat),
            locations_of(r@) == head + found_places(e@, i as nat),
        decreases candidates.len() - i,
    {
        assert(list[i as int] == candidates@[i as int]@);
        let ghost before = locations_of(r@);
        let mut found = false;
        if i < e.files.len() {
            assert(e@.files[i as int] == maybe(e.files@[i as int]));
            if let Some(l) = &e.files[i] {
                append_one(&mut r, l);
                found = true;
                assert(before.push(l@) =~= head + found_places(e@, (i + 1) as nat));
            }
        }
        if candidates[i].explicit && !found {
            assert(!all_found(e@, list, list.len()));
            return Err(refuse("extension --config requires a local configuration path"));
        }
        i = i + 1;
    }
    Ok(r)
}

/// Lists the configuration file and the paths of every configured extension, whether it is
/// enabled or not.
pub fn protected_places(file: &Location, extensions: &Vec<ResolvedExtension>) -> (r: Result<Vec<Location>, WorkflowError>)
    ensures
        match r {
            Ok(list) => gathered(file@, resolutions(extensions@)) == Ok::<Seq<LocationView>, Fault>(locations_of(list@)),
            Err(e) => gathered(file@, resolutions(extensions@)) == Err::<Seq<LocationView>, Fault>(e@),
        },
{
    let ghost all = resolutions(extensions@);
    let mut r: Vec<Location> = Vec::new();
    append_one(&mut r, file);
    let mut i: usize = 0;
    assert(all.subrange(0, 0) =~= Seq::<ResolvedView>::empty());
    assert(locations_of(r@) =~= seq![file@]);
    while i < extensions.len()
        invariant
            i <= extensions.len(),
            all == resolutions(extensions@),
            gathered(file@, all.subrange(0, i as int)) == Ok::<Seq<LocationView>, Fault>(locations_of(r@)),
        decreases extensions.len() - i,
    {
        proof {
            assert(all.subrange(0, i + 1).drop_last() =~= all.subrange(0, i as int));
            assert(all.subrange(0, i + 1).last() == extensions@[i as int]@);
        }
        match resolved_places(&extensions[i]) {
            Ok(more) => {
                append_all(&mut r, &more);
            },
            Err(e) => {
                proof {
                    refusal_stays(file@, all, i + 1);
                }
                return Err(e);
            },
        }
        i = i + 1;
    }
    assert(all.subrange(0, i as int) =~= all);
    Ok(r)
}

/// Protects the configuration, transport executables, package working directories and
/// explicit local file arguments: none may overlap the target. Remote arguments are opaque;
/// the node owns validation of its remote installation paths.
pub fn extension_protected_paths(file: &Location, extensions: &Vec<ResolvedExtension>, target: &Location) -> (r: Result<
    Vec<Location>,
    WorkflowError,
>)
    ensures
        match r {
            Ok(list) => protection(file@, resolutions(extensions@), target@) == Ok::<Seq<LocationView>, Fault>(
                locations_of(list@),
            ),
            Err(e) => protection(file@, resolutions(extensions@), target@) == Err::<Seq<LocationView>, Fault>(e@),
        },
{
    let paths = match protected_places(file, extensions) {
        Ok(paths) => paths,
        Err(e) => {
            return Err(e);
        },
    };
    let ghost all = locations_of(paths@);
    let mut i: usize = 0;
    while i < paths.len()
        invariant
            i <= paths.len(),
            all == locations_of(paths@),
            gathered(file@, resolutions(extensions@)) == Ok::<Seq<LocationView>, Fault>(all),
            forall|j: int| 0 <= j < i ==> !overlaps(#[trigger] all[j], target@),
        decreases paths.len() - i,
    {
        assert(all[i as int] == paths@[i as int]@);
        if within(&paths[i], target) || within(target, &paths[i]) {
            assert(some_overlap(all, target@));
            return Err(refuse("repair target overlaps extension configuration, program or package context"));
        }
        i = i + 1;
    }
    Ok(sort_unique(&paths))
}

proof fn places_are_gathered(file: LocationView, list: Seq<ResolvedView>, i: int)
    requires
        gathered(file, list) is Ok,
        0 <= i < list.len(),
    ensures
        extension_places(list[i]) is Ok,
        forall|parts: Seq<PartView>|
            listed(extension_places(list[i])->Ok_0, parts) ==> #[trigger] listed(gathered(file, list)->Ok_0, parts),
    decreases list.len(),
{
    let front = list.drop_last();
    let some = gathered(file, front)->Ok_0;
    let more = extension_places(list.last())->Ok_0;
    if i < front.len() {
        places_are_gathered(file, front, i);
        assert(front[i] == list[i]);
    }
    assert forall|parts: Seq<PartView>| listed(extension_places(list[i])->Ok_0, parts) implies #[trigger] listed(
        gathered(file, list)->Ok_0,
        parts,
    ) by {
        if i < front.len() {
            assert(listed(some, parts));
            joined_are_listed(some, more, parts);
        } else {
            joined_are_listed(some, more, parts);
        }
    }
}

proof fn joined_are_listed(a: Seq<LocationView>, b: Seq<LocationView>, parts: Seq<PartView>)
    ensures
        listed(a, parts) || listed(b, parts) ==> listed(a + b, parts),
{
    if listed(a, parts) {
        let i = choose|i: int| 0 <= i < a.len() && #[trigger] a[i].parts == parts;
        assert((a + b)[i].parts == parts);
    }
    if listed(b, parts) {
        let i = choose|i: int| 0 <= i < b.len() && #[trigger] b[i].parts == parts;
        assert((a + b)[a.len() + i].parts == parts);
    }
}

proof fn file_is_gathered(file: LocationView, list: Seq<ResolvedView>)
    requires
        gathered(file, list) is Ok,
    ensures
        listed(gathered(file, list)->Ok_0, file.parts),
    decreases list.len(),
{
    if list.len() == 0 {
        assert(seq![file][0].parts == file.parts);
    } else {
        file_is_gathered(file, list.drop_last());
        joined_are_listed(gathered(file, list.drop_last())->Ok_0, extension_places(list.last())->Ok_0, file.parts);
    }
}

proof fn place_is_found(e: ResolvedView, n: nat, k: int)
    requires
        0 <= k < n,
        place_of(e, k) is Some,
    ensures
        listed(found_places(e, n), place_of(e, k)->0.parts),
    decreases n,
{
    let all = found_places(e, n);
    let front = found_places(e, (n - 1) as nat);
    if k == n - 1 {
        assert(all[front.len() as int].parts == place_of(e, k)->0.parts);
    } else {
        place_is_found(e, (n - 1) as nat, k);
        let i = choose|i: int| 0 <= i < front.len() && #[trigger] front[i].parts == place_of(e, k)->0.parts;
        assert(all[i].parts == place_of(e, k)->0.parts);
    }
}

/// The protected paths ascend strictly. They hold the configuration file and, for every
/// configured extension, its program, the directory that holds the program, its working
/// directory and every local file among its arguments; unless its program is an SSH
/// transport, every configuration path that its arguments name is one. None of them
/// overlaps the target.
pub proof fn extension_paths_are_protected(file: LocationView, list: Seq<ResolvedView>, target: LocationView, i: int, k: int)
    requires
        protection(file, list, target) is Ok,
    ensures
        ({
            let v = protection(file, list, target)->Ok_0;
            &&& ascend(v)
            &&& listed(v, file.parts)
            &&& forall|j: int| 0 <= j < v.len() ==> !overlaps(#[trigger] v[j], target)
            &&& 0 <= i < list.len() ==> {
                let e = list[i];
                let (candidates, asked) = gleaned(e.args, transports(e.program));
                &&& listed(v, e.program.parts)
                &&& listed(v, e.package.parts)
                &&& e.package.parts == e.program.parts.drop_last()
                &&& listed(v, e.cwd.parts)
                &&& !asked
                &&& 0 <= k < candidates.len() && candidates[k].explicit ==> place_of(e, k) is Some
                &&& 0 <= k < candidates.len() && place_of(e, k) is Some ==> listed(v, place_of(e, k)->0.parts)
            }
        }),
{
    let paths = gathered(file, list)->Ok_0;
    let v = protection(file, list, target)->Ok_0;
    ordering_keeps_every_path(paths);
    file_is_gathered(file, list);
    assert(listed(v, file.parts));
    assert forall|j: int| 0 <= j < v.len() implies !overlaps(#[trigger] v[j], target) by {
        assert(first_of_its_path(paths, v[j]));
        let m = choose|m: int|
            0 <= m < paths.len() && #[trigger] paths[m] == v[j] && forall|x: int|
                0 <= x < m ==> (#[trigger] paths[x]).parts != v[j].parts;
        assert(!overlaps(paths[m], target));
    }
    if 0 <= i < list.len() {
        let e = list[i];
        let (candidates, asked) = gleaned(e.args, transports(e.program));
        places_are_gathered(file, list, i);
        let own = extension_places(e)->Ok_0;
        assert(own[0] == e.program && own[1] == e.package && own[2] == e.cwd);
        assert(listed(own, e.program.parts) && listed(paths, e.program.parts));
        assert(listed(own, e.package.parts) && listed(paths, e.package.parts));
        assert(listed(own, e.cwd.parts) && listed(paths, e.cwd.parts));
        assert(listed(v, e.program.parts) && listed(v, e.package.parts) && listed(v, e.cwd.parts));
        if 0 <= k < candidates.len() {
            if candidates[k].explicit {
                assert(all_found(e, candidates, candidates.len()));
            }
            if place_of(e, k) is Some {
                let parts = place_of(e, k)->0.parts;
                place_is_found(e, candidates.len(), k);
                joined_are_listed(seq![e.program, e.package, e.cwd], found_places(e, candidates.len()), parts);
                assert(listed(own, parts) && listed(paths, parts));
                assert(listed(v, parts));
            }
        }
    }
}

/// Checks where a Harness configuration lies; `project` is the source tree, if it is there.
pub fn check_harness_path(path: &Location, project: &Option<Location>) -> (r: Result<(), HarnessError>)
    ensures
        match r {
            Ok(_) => !(maybe(*project) is Some && inside(path@, maybe(*project)->0)),
            Err(e) => maybe(*project) is Some && inside(path@, maybe(*project)->0) && e@
                == crate::harnesses::Fault::InvalidConfiguration(
                "active configuration must be outside the project source tree; copy the example to an external directory and adjust workspace_roots"@,
            ),
        },
{
    if let Some(p) = project {
        if within(path, p) {
            return Err(
                HarnessError::InvalidConfiguration(
                    copied(
                        "active configuration must be outside the project source tree; copy the example to an external directory and adjust workspace_roots",
                    ),
                ),
            );
        }
    }
    Ok(())
}

/// Checks that state lies outside the source tree.
pub fn check_data_directory(directory: &Location, project: &Location) -> (r: Result<(), String>)
    ensures
        match r {
            Ok(_) => !inside(directory@, project@),
            Err(m) => inside(directory@, project@) && m@ == "data directory must be outside the project source tree"@,
        },
{
    if within(directory, project) {
        return Err(copied("data directory must be outside the project source tree"));
    }
    Ok(())
}

/// Once a configuration was accepted, neither it, nor the approver's context, nor the state
/// lies within the target.
pub proof fn targets_hold_no_configuration(p: PlacesView, state: LocationView)
    requires
        places_fault(p) is None,
        state_fault(p, state) is None,
    ensures
        !inside(p.path, p.target_root),
        !inside(p.harness_config, p.target_root),
        !inside(p.reviewer_directory, p.target_root),
        !maybe_inside(p.extensions_config, p.target_root),
        !inside(state, p.target_root),
{
}

/// A normal path has no aliases and is absolute.
pub proof fn normal_paths_have_no_aliases(windows: bool, parts: Seq<PartView>, i: int)
    requires
        normal(windows, parts) is Ok,
        0 <= i < normal(windows, parts)->Ok_0.len(),
    ensures
        is_absolute(windows, normal(windows, parts)->Ok_0),
        !(normal(windows, parts)->Ok_0[i] is Current),
        !(normal(windows, parts)->Ok_0[i] is Parent),
{
    resolved_is_plain(parts, i);
}

proof fn resolved_is_plain(parts: Seq<PartView>, i: int)
    requires
        resolved(parts) is Ok,
        0 <= i < resolved(parts)->Ok_0.len(),
    ensures
        !(resolved(parts)->Ok_0[i] is Current),
        !(resolved(parts)->Ok_0[i] is Parent),
    decreases parts.len(),
{
    if parts.len() > 0 {
        let front = resolved(parts.drop_last())->Ok_0;
        if i < front.len() {
            resolved_is_plain(parts.drop_last(), i);
        }
    }
}

} // verus!
