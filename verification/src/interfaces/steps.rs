//! The steps of a command: what it asks a Harness for next, given what has come back.
use super::views::{
    create_made, create_request, created_json, created_tree, discovered, list_json, list_made, list_request, listing, place_run,
    projects_json, projects_tree, registry_tree, remaining, run_json, run_made, run_request, run_tree, Selection, SelectionView,
};
use super::{ArgumentsView, CommandView, HarnessArguments, HarnessCommand};
use crate::harnesses::projects::{projects_of, HarnessProject, ProjectView};
use crate::harnesses::registry::{HarnessRegistry, HarnessRunResult, ResultView};
use crate::harnesses::requests::{
    CreateView, HarnessProjectCreateRequest, HarnessProjectListRequest, HarnessRunRequest, ListView, RunView,
};
use crate::harnesses::{ConversationPlacement, ConversationVisibility, Fault, HarnessError, PlacementView};
use crate::json::{Json, Tree};
use crate::paths::{Location, LocationView};
use crate::text::opt;
use crate::time::Span;
use vstd::prelude::*;

verus! {

/// What a command asks for next.
pub enum CliStep {
    ListProjects(HarnessProjectListRequest),
    CreateProject(HarnessProjectCreateRequest),
    Run(HarnessRunRequest),
    /// Nothing more: this is the answer.
    Report(Json),
}

pub enum StepView {
    ListProjects(ListView),
    CreateProject(CreateView),
    Run(RunView),
    Report(Tree),
}

impl View for CliStep {
    type V = StepView;

    open spec fn view(&self) -> StepView {
        match self {
            CliStep::ListProjects(q) => StepView::ListProjects(q@),
            CliStep::CreateProject(q) => StepView::CreateProject(q@),
            CliStep::Run(q) => StepView::Run(q@),
            CliStep::Report(v) => StepView::Report(v@),
        }
    }
}

/// What the last step of a command brought.
pub enum Seen {
    Nothing,
    Listed(Vec<HarnessProject>),
    Created(HarnessProject),
    Ran(HarnessRunResult),
}

pub enum SeenView {
    Nothing,
    Listed(Seq<ProjectView>),
    Created(ProjectView),
    Ran(ResultView),
}

impl View for Seen {
    type V = SeenView;

    open spec fn view(&self) -> SeenView {
        match self {
            Seen::Nothing => SeenView::Nothing,
            Seen::Listed(list) => SeenView::Listed(projects_of(list@)),
            Seen::Created(p) => SeenView::Created(p@),
            Seen::Ran(r) => SeenView::Ran(r@),
        }
    }
}

/// The moment of a step: what is left until the command's deadline, and whether it was
/// cancelled.
pub struct Budget {
    pub cancelled: bool,
    pub left: Option<Span>,
}

/// The rest of a command's budget, or why it is used up.
pub open spec fn rest(harness: Seq<char>, seconds: u64, b: Budget) -> Result<Span, Fault> {
    if b.cancelled {
        Err(Fault::Interrupted(harness))
    } else if b.left is None || b.left->0.total() == 0 {
        Err(Fault::DeadlineExceeded(harness, seconds))
    } else {
        Ok(b.left->0)
    }
}

fn budgeted(harness: &str, seconds: u64, b: &Budget) -> (r: Result<Span, HarnessError>)
    ensures
        match r {
            Ok(s) => rest(harness@, seconds, *b) == Ok::<Span, Fault>(s),
            Err(e) => rest(harness@, seconds, *b) == Err::<Span, Fault>(e@),
        },
{
    remaining(harness, seconds, b.cancelled, b.left)
}

pub open spec fn listing_step(s: SelectionView, cwd: LocationView, seconds: u64, b: Budget) -> Result<StepView, Fault> {
    match rest(s.harness, seconds, b) {
        Ok(left) => Ok(StepView::ListProjects(list_made(s, cwd, left, b.cancelled))),
        Err(f) => Err(f),
    }
}

fn list_step(s: &Selection, cwd: &Location, seconds: u64, b: &Budget) -> (r: Result<CliStep, HarnessError>)
    ensures
        stepping(r, listing_step(s@, cwd@, seconds, *b)),
{
    match budgeted(&s.harness, seconds, b) {
        Ok(left) => Ok(CliStep::ListProjects(list_request(s, cwd, left, b.cancelled))),
        Err(e) => Err(e),
    }
}

pub open spec fn running_step(
    s: SelectionView,
    cwd: LocationView,
    prompt: Seq<char>,
    model: Option<Seq<char>>,
    visibility: ConversationVisibility,
    placement: PlacementView,
    seconds: u64,
    b: Budget,
) -> Result<StepView, Fault> {
    match rest(s.harness, seconds, b) {
        Ok(left) => Ok(StepView::Run(run_made(s, cwd, prompt, model, visibility, placement, left, b.cancelled))),
        Err(f) => Err(f),
    }
}

fn run_step(
    s: &Selection,
    cwd: &Location,
    prompt: &str,
    model: &Option<String>,
    visibility: ConversationVisibility,
    placement: ConversationPlacement,
    seconds: u64,
    b: &Budget,
) -> (r: Result<CliStep, HarnessError>)
    ensures
        stepping(r, running_step(s@, cwd@, prompt@, opt(*model), visibility, placement@, seconds, *b)),
{
    match budgeted(&s.harness, seconds, b) {
        Ok(left) => Ok(CliStep::Run(run_request(s, cwd, prompt, model, visibility, placement, left, b.cancelled))),
        Err(e) => Err(e),
    }
}

/// Agreement of a step with its model.
pub open spec fn stepping(r: Result<CliStep, HarnessError>, model: Result<StepView, Fault>) -> bool {
    match r {
        Ok(step) => model == Ok::<StepView, Fault>(step@),
        Err(e) => model == Err::<StepView, Fault>(e@),
    }
}

/// The next step of a command that works on the selected instance; `all` is what listing
/// the instances shows. A run in a project lists the projects first, and runs only in one
/// that was listed.
pub open spec fn next_of(
    all: Tree,
    a: ArgumentsView,
    s: SelectionView,
    cwd: LocationView,
    prompt: Seq<char>,
    seen: SeenView,
    b: Budget,
) -> Result<StepView, Fault> {
    match a.command {
        CommandView::List => Ok(StepView::Report(all)),
        CommandView::Projects { cwd: _, timeout_secs } => match seen {
            SeenView::Listed(list) => Ok(StepView::Report(projects_tree(s.harness, list))),
            _ => listing_step(s, cwd, timeout_secs, b),
        },
        CommandView::CreateProject { cwd: _, name, idempotency_key, timeout_secs } => match seen {
            SeenView::Created(p) => Ok(StepView::Report(created_tree(s.harness, idempotency_key, p))),
            _ => match rest(s.harness, timeout_secs, b) {
                Ok(left) => Ok(StepView::CreateProject(create_made(s, cwd, name, idempotency_key, left, b.cancelled))),
                Err(f) => Err(f),
            },
        },
        CommandView::Run { cwd: _, prompt: _, model, visibility, project, timeout_secs } => match (seen, project) {
            (SeenView::Ran(x), _) => Ok(StepView::Report(run_tree(x))),
            (_, None) => running_step(
                s,
                cwd,
                prompt,
                model,
                visibility,
                PlacementView::NoNativeProject,
                timeout_secs,
                b,
            ),
            (SeenView::Listed(list), Some(id)) => if discovered(list, s.harness, id) {
                running_step(
                    s,
                    cwd,
                    prompt,
                    model,
                    visibility,
                    PlacementView::ExistingProject { harness_id: s.harness, project_id: id },
                    timeout_secs,
                    b,
                )
            } else {
                Err(Fault::UnknownProject(s.harness, id))
            },
            (_, Some(_)) => listing_step(s, cwd, timeout_secs, b),
        },
    }
}

/// Says what a command asks for next.
pub fn next_step(
    registry: &HarnessRegistry,
    args: &HarnessArguments,
    s: &Selection,
    cwd: &Location,
    prompt: &str,
    seen: &Seen,
    b: &Budget,
) -> (r: Result<CliStep, HarnessError>)
    requires
        registry.wf(),
    ensures
        stepping(
            r,
            next_of(
                registry_tree(listing(*registry), registry@.default_harness),
                args@,
                s@,
                cwd@,
                prompt@,
                seen@,
                *b,
            ),
        ),
{
    match &args.command {
        HarnessCommand::List => Ok(CliStep::Report(list_json(registry))),
        HarnessCommand::Projects { cwd: _, timeout_secs } => match seen {
            Seen::Listed(list) => Ok(CliStep::Report(projects_json(&s.harness, list))),
            _ => list_step(s, cwd, *timeout_secs, b),
        },
        HarnessCommand::CreateProject { cwd: _, name, idempotency_key, timeout_secs } => match seen {
            Seen::Created(p) => Ok(CliStep::Report(created_json(&s.harness, idempotency_key, p))),
            _ => match budgeted(&s.harness, *timeout_secs, b) {
                Ok(left) => Ok(CliStep::CreateProject(create_request(s, cwd, name, idempotency_key, left, b.cancelled))),
                Err(e) => Err(e),
            },
        },
        HarnessCommand::Run { cwd: _, prompt: _, model, visibility, project, timeout_secs } => match seen {
            Seen::Ran(x) => Ok(CliStep::Report(run_json(x))),
            _ => match project {
                None => run_step(
                    s,
                    cwd,
                    prompt,
                    model,
                    *visibility,
                    ConversationPlacement::NoNativeProject,
                    *timeout_secs,
                    b,
                ),
                Some(id) => match seen {
                    Seen::Listed(list) => match place_run(list, &s.harness, id) {
                        Ok(placement) => run_step(s, cwd, prompt, model, *visibility, placement, *timeout_secs, b),
                        Err(e) => Err(e),
                    },
                    _ => list_step(s, cwd, *timeout_secs, b),
                },
            },
        },
    }
}

/// A run in a project happens only after the projects were listed and the project was among
/// them, and then in that project; before that the only step is to list. A run without a
/// project lists nothing. No step is taken once the budget is used up or the command was
/// cancelled.
pub proof fn runs_follow_their_listing(
    all: Tree,
    a: ArgumentsView,
    s: SelectionView,
    cwd: LocationView,
    prompt: Seq<char>,
    seen: SeenView,
    b: Budget,
)
    requires
        a.command is Run,
    ensures
        ({
            let next = next_of(all, a, s, cwd, prompt, seen, b);
            let project = a.command->project;
            &&& next is Ok && next->Ok_0 is Run && project is Some ==> {
                &&& seen is Listed
                &&& discovered(seen->Listed_0, s.harness, project->0)
                &&& next->Ok_0->Run_0.placement == (PlacementView::ExistingProject {
                    harness_id: s.harness,
                    project_id: project->0,
                })
            }
            &&& next is Ok && next->Ok_0 is Run && project is None ==> next->Ok_0->Run_0.placement
                == PlacementView::NoNativeProject
            &&& seen is Nothing && project is Some && next is Ok ==> next->Ok_0 is ListProjects
            &&& seen is Listed && project is Some && !discovered(seen->Listed_0, s.harness, project->0) ==> next == Err::<
                StepView,
                Fault,
            >(Fault::UnknownProject(s.harness, project->0))
            &&& project is None && next is Ok ==> !(next->Ok_0 is ListProjects)
            &&& next is Ok && !(next->Ok_0 is Report) ==> !b.cancelled && b.left is Some && b.left->0.total() > 0
            &&& next is Ok ==> !(next->Ok_0 is CreateProject)
        }),
{
}

/// A command calls what it was asked for and nothing else: listing projects only lists,
/// creating one only creates, and each ends with what came back.
pub proof fn commands_make_their_own_calls(
    all: Tree,
    a: ArgumentsView,
    s: SelectionView,
    cwd: LocationView,
    prompt: Seq<char>,
    seen: SeenView,
    b: Budget,
)
    ensures
        ({
            let next = next_of(all, a, s, cwd, prompt, seen, b);
            &&& a.command is List ==> next == Ok::<StepView, Fault>(StepView::Report(all))
            &&& a.command is Projects && next is Ok ==> if seen is Listed {
                next->Ok_0 == StepView::Report(projects_tree(s.harness, seen->Listed_0))
            } else {
                next->Ok_0 is ListProjects
            }
            &&& a.command is CreateProject && next is Ok ==> if seen is Created {
                next->Ok_0 == StepView::Report(created_tree(s.harness, a.command->idempotency_key, seen->Created_0))
            } else {
                next->Ok_0 is CreateProject
            }
            &&& a.command is Run && seen is Ran ==> next == Ok::<StepView, Fault>(StepView::Report(run_tree(seen->Ran_0)))
        }),
{
}

} // verus!
