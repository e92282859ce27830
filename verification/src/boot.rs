//! Application assembly for simulation, Harness text and approved text repair.
pub mod arguments;
pub mod configuration;
pub mod host;
pub mod laws;
pub mod reports;

use crate::recovery::engine::{Simulation, SpecView, TaskSpec, TaskState};
use crate::text::{closes, ends_with, joined};
use vstd::prelude::*;

verus! {

pub const HELP: &'static str = "Recuvora: simulation, Harness text and approval-controlled repair

Usage:
  recuvora demo --data-dir <external-directory> [--concurrency <1..32>]
  recuvora inspect --data-dir <external-directory> --task <task-id>
  recuvora harness --help
  recuvora repair --help
  recuvora serve --config <external-config.json> (requires server feature)
    Harness commands: list, projects, create-project, run (explicit --config).

The demo is simulation only: success, failure, unavailable result, timeout,
denied authorization, and cancellation. It does not invoke a Harness, commands,
network services, or desktop input. State is retained in the supplied directory.
  The official console uses server,web-ui features. Harness providers run as
  independent nodes selected through explicit extension configuration.
";

/// One step of the demonstration: a task, whether it is cancelled at once, and the state
/// that it is expected to end in.
pub struct DemoTask {
    pub spec: TaskSpec,
    pub cancel: bool,
    pub expected: TaskState,
}

pub struct DemoView {
    pub spec: SpecView,
    pub cancel: bool,
    pub expected: TaskState,
}

impl View for DemoTask {
    type V = DemoView;

    open spec fn view(&self) -> DemoView {
        DemoView { spec: self.spec@, cancel: self.cancel, expected: self.expected }
    }
}

pub open spec fn demo_view(list: Seq<DemoTask>) -> Seq<DemoView> {
    list.map_values(|t: DemoTask| t@)
}

pub open spec fn scenario(
    run: Seq<char>,
    label: Seq<char>,
    place: Seq<char>,
    simulation: Simulation,
    authorized: bool,
    timeout_ms: u64,
    expected: TaskState,
    cancel: bool,
) -> DemoView {
    DemoView {
        spec: SpecView {
            id: run + "-"@ + label,
            target: run + "-"@ + place + "-target"@,
            simulation,
            simulation_authorized: authorized,
            timeout_ms,
        },
        cancel,
        expected,
    }
}

/// The faults of the demonstration. The cancelled task queues behind the hanging target, so
/// that it never executes.
pub open spec fn faults_shown(run: Seq<char>) -> Seq<DemoView> {
    seq![
        scenario(run, "success"@, "success"@, Simulation::Succeed, true, 500, TaskState::Succeeded, false),
        scenario(run, "failure"@, "failure"@, Simulation::Fail, true, 500, TaskState::Failed, false),
        scenario(run, "unknown"@, "unknown"@, Simulation::Exit, true, 500, TaskState::Unknown, false),
        scenario(
            run,
            "verification-failure"@,
            "verification-failure"@,
            Simulation::VerificationFailed,
            true,
            500,
            TaskState::Failed,
            false,
        ),
        scenario(run, "timeout"@, "timeout"@, Simulation::Hang, true, 500, TaskState::Unknown, false),
        scenario(run, "denied"@, "denied"@, Simulation::Succeed, false, 30000, TaskState::Denied, false),
        scenario(run, "canceled"@, "timeout"@, Simulation::Hang, true, 5000, TaskState::Canceled, true),
    ]
}

fn staged(
    run_id: &str,
    label: &str,
    place: &str,
    simulation: Simulation,
    authorized: bool,
    timeout_ms: u64,
    expected: TaskState,
    cancel: bool,
) -> (r: DemoTask)
    ensures
        r@ == scenario(run_id@, label@, place@, simulation, authorized, timeout_ms, expected, cancel),
{
    let mut id = joined(run_id, "-");
    id.append(label);
    let mut target = joined(run_id, "-");
    target.append(place);
    target.append("-target");
    let spec = TaskSpec { id, target, simulation, simulation_authorized: authorized, timeout_ms };
    DemoTask { spec, cancel, expected }
}

/// The tasks of the demonstration, in the order of their submission.
pub fn demonstrate(run_id: &str) -> (r: Vec<DemoTask>)
    ensures
        demo_view(r@) == faults_shown(run_id@),
{
    let mut r: Vec<DemoTask> = Vec::new();
    r.push(staged(run_id, "success", "success", Simulation::Succeed, true, 500, TaskState::Succeeded, false));
    r.push(staged(run_id, "failure", "failure", Simulation::Fail, true, 500, TaskState::Failed, false));
    r.push(staged(run_id, "unknown", "unknown", Simulation::Exit, true, 500, TaskState::Unknown, false));
    r.push(
        staged(
            run_id,
            "verification-failure",
            "verification-failure",
            Simulation::VerificationFailed,
            true,
            500,
            TaskState::Failed,
            false,
        ),
    );
    r.push(staged(run_id, "timeout", "timeout", Simulation::Hang, true, 500, TaskState::Unknown, false));
    r.push(staged(run_id, "denied", "denied", Simulation::Succeed, false, 30000, TaskState::Denied, false));
    r.push(staged(run_id, "canceled", "timeout", Simulation::Hang, true, 5000, TaskState::Canceled, true));
    assert(demo_view(r@) =~= faults_shown(run_id@));
    r
}

/// The task that shows that faults do not prevent further work.
pub fn after_faults(run_id: &str) -> (r: DemoTask)
    ensures
        r@ == scenario(
            run_id@,
            "after-faults"@,
            "fresh"@,
            Simulation::Succeed,
            true,
            30000,
            TaskState::Succeeded,
            false,
        ),
{
    staged(run_id, "after-faults", "fresh", Simulation::Succeed, true, 30000, TaskState::Succeeded, false)
}

/// Whether a task of the demonstration ended as expected; the hanging one may also time out.
pub fn as_expected(task: &DemoTask, state: TaskState) -> (r: bool)
    ensures
        r == (state == task@.expected || (ends_with(task@.spec.id, "-timeout"@) && state == TaskState::TimedOut)),
{
    state == task.expected || (closes(&task.spec.id, "-timeout") && state == TaskState::TimedOut)
}

} // verus!
