//! What the commands report.
use super::repair::result_tree;
use super::ui::media_type;
use super::views::{
    category_of, created_tree, create_made, definition_tree, discovered, error_tree, grouping_tree, list_made, project_tree,
    projects_tree, registry_tree, run_made, run_tree, status_of, unprefixed, SelectionView,
};
use super::{parsed, ArgumentsView};
use crate::harnesses::projects::ProjectView;
use crate::harnesses::registry::ResultView;
use crate::harnesses::{ConversationVisibility, DefinitionView, Fault, GroupingView, PlacementView};
use crate::json::laws::group_members;
use crate::json::{member, Tree};
use crate::paths::LocationView;
use crate::recovery::workflow::{RepairResult, RepairStatus};
use crate::text::starts_with;
use crate::time::Span;
use vstd::prelude::*;

verus! {

broadcast use group_members;

/// Help is given when it is asked for alone, or for one command, and not among other words.
pub proof fn help_stands_alone(args: Seq<Option<Seq<char>>>)
    ensures
        args.len() == 0 ==> parsed(args) == Ok::<Option<ArgumentsView>, Seq<char>>(None),
        args.len() == 1 && (args[0] == Some("help"@) || args[0] == Some("--help"@) || args[0] == Some("-h"@)) ==> parsed(args)
            == Ok::<Option<ArgumentsView>, Seq<char>>(None),
        args.len() > 1 && (args[0] == Some("help"@) || args[0] == Some("--help"@) || args[0] == Some("-h"@)) ==> parsed(
            args,
        ) is Err,
        args.len() == 2 && args[0] == Some("run"@) && (args[1] == Some("--help"@) || args[1] == Some("-h"@)) ==> parsed(args)
            == Ok::<Option<ArgumentsView>, Seq<char>>(None),
        args.len() > 2 && args[0] == Some("run"@) && (args[1] == Some("--help"@) || args[1] == Some("-h"@)) ==> parsed(
            args,
        ) is Err,
        args.len() > 0 && args[0] is None ==> parsed(args) is Err,
        args.len() > 0 && args[0] is Some && args[0]->0 != "help"@ && args[0]->0 != "--help"@ && args[0]->0 != "-h"@
            && args[0]->0 != "list"@ && args[0]->0 != "projects"@ && args[0]->0 != "create-project"@ && args[0]->0 != "run"@
            ==> parsed(args) is Err,
{
    reveal_strlit("help");
    reveal_strlit("--help");
    reveal_strlit("-h");
    reveal_strlit("run");
    assert("help"@.len() == 4 && "--help"@.len() == 6 && "-h"@.len() == 2 && "run"@.len() == 3);
}

/// An instance is reported as it is configured.
pub proof fn instances_are_reported_as_configured(d: DefinitionView, default: Option<Seq<char>>)
    ensures
        member(definition_tree(d, default), "id"@) == Some(Tree::Text(d.id)),
        member(definition_tree(d, default), "adapter"@) == Some(Tree::Text(d.adapter)),
        member(definition_tree(d, default), "address"@) == Some(Tree::Text(d.address)),
        member(definition_tree(d, default), "enabled"@) == Some(Tree::Bool(d.enabled)),
        member(definition_tree(d, default), "default"@) == Some(Tree::Bool(default == Some(d.id))),
        member(definition_tree(d, default), "availability"@) == Some(Tree::Text(if d.enabled { "configured"@ } else { "disabled"@ })),
        member(definition_tree(d, default), "authentication"@) == Some(Tree::Text("not_checked"@)),
{
    reveal_strlit("id");
    reveal_strlit("adapter");
    reveal_strlit("address");
    reveal_strlit("enabled");
    reveal_strlit("default");
    reveal_strlit("workspace_roots");
    reveal_strlit("availability");
    reveal_strlit("authentication");
    assert("id"@.len() == 2 && "adapter"@.len() == 7 && "address"@.len() == 7 && "enabled"@.len() == 7
        && "default"@.len() == 7 && "workspace_roots"@.len() == 15 && "availability"@.len() == 12
        && "authentication"@.len() == 14 && "adapter"@[2] == 'a' && "address"@[2] == 'd'
        && "adapter"@[0] == 'a' && "enabled"@[0] == 'e' && "default"@[0] == 'd' && "address"@[0] == 'a');
}

/// A report on all instances holds each of them, in order, and the default.
pub proof fn registries_are_reported_whole(list: Seq<DefinitionView>, default: Option<Seq<char>>, i: int)
    ensures
        member(registry_tree(list, default), "status"@) == Some(Tree::Text("ok"@)),
        default is Some ==> member(registry_tree(list, default), "default_harness"@) == Some(Tree::Text(default->0)),
        default is None ==> member(registry_tree(list, default), "default_harness"@) == Some(Tree::Null),
        member(registry_tree(list, default), "harnesses"@) is Some && member(
            registry_tree(list, default),
            "harnesses"@,
        )->0->Array_0.len() == list.len(),
        0 <= i < list.len() ==> member(registry_tree(list, default), "harnesses"@)->0->Array_0[i] == definition_tree(
            list[i],
            default,
        ),
{
    reveal_strlit("status");
    reveal_strlit("default_harness");
    reveal_strlit("harnesses");
    assert("status"@.len() == 6 && "default_harness"@.len() == 15 && "harnesses"@.len() == 9);
}

/// Projects are reported with their instance, and a created one with the key that it was
/// created under; nothing says that it is grouped in the client.
pub proof fn projects_are_reported_as_found(harness: Seq<char>, list: Seq<ProjectView>, key: Seq<char>, p: ProjectView, i: int)
    ensures
        member(project_tree(p), "harness_id"@) == Some(Tree::Text(p.harness_id)),
        member(project_tree(p), "id"@) == Some(Tree::Text(p.id)),
        member(project_tree(p), "name"@) == Some(Tree::Text(p.name)),
        member(projects_tree(harness, list), "harness_id"@) == Some(Tree::Text(harness)),
        member(created_tree(harness, key, p), "idempotency_key"@) == Some(Tree::Text(key)),
        member(created_tree(harness, key, p), "project"@) == Some(project_tree(p)),
        member(created_tree(harness, key, p), "harness_id"@) == Some(Tree::Text(harness)),
        member(projects_tree(harness, list), "projects"@) is Some && member(
            projects_tree(harness, list),
            "projects"@,
        )->0->Array_0.len() == list.len(),
        0 <= i < list.len() ==> member(projects_tree(harness, list), "projects"@)->0->Array_0[i] == project_tree(list[i]),
        member(member(created_tree(harness, key, p), "client_project_grouping"@)->0, "status"@) == Some(
            Tree::Text("unverified"@),
        ),
{
    reveal_strlit("harness_id");
    reveal_strlit("id");
    reveal_strlit("name");
    reveal_strlit("roots");
    reveal_strlit("status");
    reveal_strlit("projects");
    reveal_strlit("idempotency_key");
    reveal_strlit("project");
    reveal_strlit("client_project_grouping");
    assert("harness_id"@.len() == 10 && "id"@.len() == 2 && "name"@.len() == 4 && "roots"@.len() == 5
        && "status"@.len() == 6 && "projects"@.len() == 8 && "idempotency_key"@.len() == 15
        && "project"@.len() == 7 && "client_project_grouping"@.len() == 23);
}

/// A run is reported with where it took place and what it answered.
pub proof fn runs_are_reported_as_they_ended(x: ResultView)
    ensures
        member(run_tree(x), "status"@) == Some(Tree::Text("ok"@)),
        member(run_tree(x), "harness_id"@) == Some(Tree::Text(x.harness_id)),
        member(run_tree(x), "adapter"@) == Some(Tree::Text(x.adapter)),
        member(run_tree(x), "address"@) == Some(Tree::Text(x.address)),
        member(run_tree(x), "session_id"@) == Some(Tree::Text(x.session_id)),
        member(run_tree(x), "thread_id"@) == Some(Tree::Text(x.thread_id)),
        member(run_tree(x), "cwd"@) == Some(Tree::Text(x.project_directory.text)),
        member(run_tree(x), "final_response"@) == Some(Tree::Text(x.final_response)),
        x.visibility == ConversationVisibility::Hidden ==> member(run_tree(x), "visibility"@) == Some(Tree::Text("hidden"@)),
        x.visibility == ConversationVisibility::Client ==> member(run_tree(x), "visibility"@) == Some(Tree::Text("client"@)),
        x.native_project_id is Some ==> member(run_tree(x), "native_project_id"@) == Some(Tree::Text(x.native_project_id->0)),
        x.native_project_id is None ==> member(run_tree(x), "native_project_id"@) == Some(Tree::Null),
        member(run_tree(x), "client_project_grouping"@) == Some(grouping_tree(x.client_project_grouping)),
{
    reveal_strlit("status");
    reveal_strlit("harness_id");
    reveal_strlit("adapter");
    reveal_strlit("address");
    reveal_strlit("session_id");
    reveal_strlit("thread_id");
    reveal_strlit("cwd");
    reveal_strlit("visibility");
    reveal_strlit("native_project_id");
    reveal_strlit("client_project_grouping");
    reveal_strlit("final_response");
    assert("status"@.len() == 6 && "harness_id"@.len() == 10 && "adapter"@.len() == 7 && "address"@.len() == 7
        && "session_id"@.len() == 10 && "thread_id"@.len() == 9 && "cwd"@.len() == 3
        && "visibility"@.len() == 10 && "native_project_id"@.len() == 17
        && "client_project_grouping"@.len() == 23 && "final_response"@.len() == 14
        && "harness_id"@[0] == 'h' && "session_id"@[0] == 's' && "visibility"@[0] == 'v'
        && "adapter"@[2] == 'a' && "address"@[2] == 'd');
}

/// A grouping is reported as confirmed only where it is, with its project.
pub proof fn groupings_are_reported_as_known(g: GroupingView)
    ensures
        g is NotApplicable ==> member(grouping_tree(g), "status"@) == Some(Tree::Text("not_applicable"@)),
        g is Unverified ==> member(grouping_tree(g), "status"@) == Some(Tree::Text("unverified"@)),
        g is Confirmed ==> member(grouping_tree(g), "status"@) == Some(Tree::Text("confirmed"@)),
        g is Confirmed && g->Confirmed_0 is Some ==> member(grouping_tree(g), "client_project_id"@) == Some(
            Tree::Text(g->Confirmed_0->0),
        ),
{
    reveal_strlit("status");
    reveal_strlit("client_project_id");
    assert("status"@.len() == 6 && "client_project_id"@.len() == 17);
}

/// The report on a repair says how it stands, and never that the fault is over or that it
/// should be tried again.
pub proof fn repairs_are_reported_as_they_stand(x: RepairResult, operations: Seq<Tree>)
    ensures
        member(result_tree(x, operations), "status"@) == Some(
            Tree::Text(
                match x.status {
                    RepairStatus::Unknown => "unknown"@,
                    RepairStatus::WaitingHuman => "waiting_human"@,
                    RepairStatus::Blocked => "blocked"@,
                    RepairStatus::Canceled => "canceled"@,
                    RepairStatus::Failed => "failed"@,
                    RepairStatus::Completed => "completed"@,
                },
            ),
        ),
        member(result_tree(x, operations), "task_id"@) == Some(Tree::Text(x.task_id@)),
        member(result_tree(x, operations), "operations"@) == Some(Tree::Array(operations)),
        member(result_tree(x, operations), "business_verified"@) == Some(Tree::Bool(false)),
        member(result_tree(x, operations), "auto_retry"@) == Some(Tree::Bool(false)),
        x.harness_error is None ==> member(result_tree(x, operations), "harness_error"@) == Some(Tree::Null),
        x.harness_error is Some ==> member(result_tree(x, operations), "harness_error"@) == Some(error_tree(x.harness_error->0@)),
        x.final_response is Some ==> member(result_tree(x, operations), "final_response"@) == Some(
            Tree::Text(x.final_response->0@),
        ),
        x.execution_context is Some ==> {
            let c = member(result_tree(x, operations), "execution_context"@)->0;
            &&& member(c, "harness_id"@) == Some(Tree::Text(x.execution_context->0.harness_id@))
            &&& member(c, "thread_id"@) == Some(Tree::Text(x.execution_context->0.thread_id@))
            &&& member(c, "session_id"@) == Some(Tree::Text(x.execution_context->0.session_id@))
        },
{
    reveal_strlit("status");
    reveal_strlit("task_id");
    reveal_strlit("final_response");
    reveal_strlit("harness_error");
    reveal_strlit("operations");
    reveal_strlit("execution_context");
    reveal_strlit("business_verified");
    reveal_strlit("auto_retry");
    assert("status"@.len() == 6 && "task_id"@.len() == 7 && "final_response"@.len() == 14
        && "harness_error"@.len() == 13 && "operations"@.len() == 10 && "execution_context"@.len() == 17
        && "business_verified"@.len() == 17 && "auto_retry"@.len() == 10 && "operations"@[0] == 'o'
        && "auto_retry"@[0] == 'a' && "execution_context"@[0] == 'e' && "business_verified"@[0] == 'b');
    reveal_strlit("harness_id");
    reveal_strlit("thread_id");
    reveal_strlit("session_id");
    assert("harness_id"@.len() == 10 && "thread_id"@.len() == 9 && "session_id"@.len() == 10
        && "harness_id"@[0] == 'h' && "session_id"@[0] == 's');
}

/// A failure is told by its category: what was asked for wrongly, what is not there, what was
/// refused, and what is not known.
pub proof fn failures_are_told_by_category(f: Fault)
    ensures
        f is WorkspaceDenied <==> category_of(f) == "workspace_denied"@,
        f is InvalidRequest <==> category_of(f) == "invalid_request"@,
        f is Interrupted <==> category_of(f) == "interrupted"@,
        f is DeadlineExceeded <==> category_of(f) == "deadline_exceeded"@,
        f is AuthenticationRequired <==> category_of(f) == "authentication_required"@,
        f is ConversationOutcomeUnknown <==> category_of(f) == "conversation_outcome_unknown"@,
        f is ProjectCreationOutcomeUnknown <==> category_of(f) == "project_creation_outcome_unknown"@,
        f is UnknownHarness || f is HarnessDisabled || f is NoDefaultHarness <==> category_of(f) == "selection"@,
        f is InvalidConfiguration || f is DuplicateHarness || f is DuplicateAdapter <==> category_of(f) == "configuration"@,
        f is TurnFailed <==> category_of(f) == "turn_failed"@,
        f is ProtocolViolation <==> category_of(f) == "protocol_violation"@,
        f is Unavailable <==> category_of(f) == "unavailable"@,
        f is Interrupted ==> status_of(f) == "canceled"@,
        f is ConversationOutcomeUnknown || f is ProjectCreationOutcomeUnknown ==> status_of(f) == "unknown"@,
        !(f is Interrupted) && !(f is ConversationOutcomeUnknown) && !(f is ProjectCreationOutcomeUnknown) ==> status_of(f)
            == "failed"@,
{
    reveal_strlit("configuration");
    reveal_strlit("unsupported_adapter");
    reveal_strlit("selection");
    reveal_strlit("workspace_denied");
    reveal_strlit("invalid_request");
    reveal_strlit("unavailable");
    reveal_strlit("authentication_required");
    reveal_strlit("project_discovery_unsupported");
    reveal_strlit("project_creation_unsupported");
    reveal_strlit("project_placement_unsupported");
    reveal_strlit("unknown_project");
    reveal_strlit("protocol_violation");
    reveal_strlit("tool_request_rejected");
    reveal_strlit("deadline_exceeded");
    reveal_strlit("output_limit_exceeded");
    reveal_strlit("interrupted");
    reveal_strlit("turn_failed");
    reveal_strlit("project_creation_outcome_unknown");
    reveal_strlit("conversation_outcome_unknown");
    assert("configuration"@.len() == 13 && "unsupported_adapter"@.len() == 19 && "selection"@.len() == 9
        && "workspace_denied"@.len() == 16 && "invalid_request"@.len() == 15 && "unavailable"@.len() == 11
        && "authentication_required"@.len() == 23 && "project_discovery_unsupported"@.len() == 29
        && "project_creation_unsupported"@.len() == 28 && "project_placement_unsupported"@.len() == 29
        && "unknown_project"@.len() == 15 && "protocol_violation"@.len() == 18
        && "tool_request_rejected"@.len() == 21 && "deadline_exceeded"@.len() == 17
        && "output_limit_exceeded"@.len() == 21 && "interrupted"@.len() == 11 && "turn_failed"@.len() == 11
        && "project_creation_outcome_unknown"@.len() == 32 && "conversation_outcome_unknown"@.len() == 28
        && "invalid_request"@[0] == 'i' && "unknown_project"@[0] == 'u' && "unavailable"@[0] == 'u'
        && "interrupted"@[0] == 'i' && "turn_failed"@[0] == 't'
        && "project_discovery_unsupported"@[8] == 'd' && "project_placement_unsupported"@[8] == 'p'
        && "project_creation_unsupported"@[0] == 'p' && "conversation_outcome_unknown"@[0] == 'c'
        && "tool_request_rejected"@[0] == 't' && "output_limit_exceeded"@[0] == 'o');
}

/// A command's requests carry what it was given: the workspace of a node or the local
/// directory, the name and the key, the prompt, the model, who sees it and where it belongs.
pub proof fn requests_carry_what_was_given(
    s: SelectionView,
    cwd: LocationView,
    text: Seq<char>,
    key: Seq<char>,
    model: Option<Seq<char>>,
    visibility: ConversationVisibility,
    placement: PlacementView,
    timeout: Span,
    cancelled: bool,
)
    ensures
        ({
            let l = list_made(s, cwd, timeout, cancelled);
            let c = create_made(s, cwd, text, key, timeout, cancelled);
            let r = run_made(s, cwd, text, model, visibility, placement, timeout, cancelled);
            &&& s.remote is None ==> l.context_directory == cwd && c.root_directory == cwd && r.project_directory == cwd
            &&& l.remote_workspace == s.remote && c.remote_workspace == s.remote && r.remote_workspace == s.remote
            &&& l.timeout == timeout && c.timeout == timeout && r.timeout == timeout
            &&& l.cancelled == cancelled && c.cancelled == cancelled && r.cancelled == cancelled
            &&& c.name == text && c.idempotency_key == key
            &&& r.prompt == text && r.model == model && r.visibility == visibility && r.placement == placement
            &&& r.tools.len() == 0 && !r.handled
        }),
{
}

/// A project counts as found only if the listing of that instance names it.
pub proof fn projects_are_found_in_their_instance(list: Seq<ProjectView>, harness: Seq<char>, id: Seq<char>, i: int)
    ensures
        0 <= i < list.len() && list[i].id == id && list[i].harness_id == harness ==> discovered(list, harness, id),
        (forall|k: int| 0 <= k < list.len() ==> (#[trigger] list[k]).id != id || list[k].harness_id != harness)
            ==> !discovered(list, harness, id),
{
}

/// The scheme of a node's address is cut off, however often it stands there.
pub proof fn schemes_are_cut_off(text: Seq<char>, prefix: Seq<char>)
    requires
        prefix.len() > 0,
    ensures
        unprefixed(prefix + text, prefix) == unprefixed(text, prefix),
        !starts_with(text, prefix) ==> unprefixed(text, prefix) == text,
{
    let whole = prefix + text;
    assert(whole.subrange(0, prefix.len() as int) =~= prefix);
    assert(whole.skip(prefix.len() as int) =~= text);
}

/// The files of the interface are served as what they are, and no other file is served.
pub proof fn interface_files_are_served_by_kind(name: Seq<char>)
    ensures
        media_type("index.html"@) == Some("text/html; charset=utf-8"@),
        media_type("styles.css"@) == Some("text/css; charset=utf-8"@),
        media_type("favicon.svg"@) == Some("image/svg+xml"@),
        media_type("favicon.ico"@) == Some("image/x-icon"@),
        media_type("app.js"@) == Some("text/javascript; charset=utf-8"@),
        media_type(name) is Some ==> name.len() >= 6 && name.contains('.') && !name.contains('/'),
{
    reveal_strlit("index.html");
    reveal_strlit("styles.css");
    reveal_strlit("favicon.svg");
    reveal_strlit("favicon.ico");
    reveal_strlit("app.js");
    reveal_strlit("api.js");
    reveal_strlit("dom.js");
    reveal_strlit("history.js");
    reveal_strlit("monitoring.js");
    reveal_strlit("plugin-monitoring.js");
    reveal_strlit("project-logs.js");
    reveal_strlit("refresh.js");
    reveal_strlit("data.js");
    reveal_strlit("shell.js");
    assert("index.html"@.len() == 10 && "styles.css"@.len() == 10 && "favicon.svg"@.len() == 11
        && "favicon.ico"@.len() == 11 && "app.js"@.len() == 6 && "api.js"@.len() == 6
        && "dom.js"@.len() == 6 && "history.js"@.len() == 10 && "monitoring.js"@.len() == 13
        && "plugin-monitoring.js"@.len() == 20 && "project-logs.js"@.len() == 15
        && "refresh.js"@.len() == 10 && "data.js"@.len() == 7 && "shell.js"@.len() == 8
        && "index.html"@[0] == 'i' && "styles.css"@[0] == 's' && "history.js"@[0] == 'h'
        && "refresh.js"@[0] == 'r' && "favicon.svg"@[8] == 's' && "favicon.ico"@[8] == 'i'
        && "app.js"@[2] == 'p' && "api.js"@[2] == 'i' && "app.js"@[0] == 'a' && "dom.js"@[0] == 'd'
        && "api.js"@[0] == 'a');
    assert("index.html"@[5] == '.');
    assert("styles.css"@[6] == '.');
    assert("favicon.svg"@[7] == '.');
    assert("favicon.ico"@[7] == '.');
    assert("app.js"@[3] == '.');
    assert("api.js"@[3] == '.');
    assert("dom.js"@[3] == '.');
    assert("history.js"@[7] == '.');
    assert("monitoring.js"@[10] == '.');
    assert("plugin-monitoring.js"@[17] == '.');
    assert("project-logs.js"@[12] == '.');
    assert("refresh.js"@[7] == '.');
    assert("data.js"@[4] == '.');
    assert("shell.js"@[5] == '.');
}

} // verus!
