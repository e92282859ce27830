//! What holds of the command line and its views as a whole.
use super::views::{base_tree, category_of, chosen, error_tree, grouping_tree, harness_in, status_of, visibility_text};
use super::{parsed, ArgumentsView, CommandView, MAX_TIMEOUT_SECS};
use crate::harnesses::registry::{registered, RegistryView};
use crate::harnesses::remote::REMOTE_NODE_ADAPTER;
use crate::harnesses::{fault_message, ConversationVisibility, Fault, GroupingView};
use crate::json::values::{empty_object, text_or_null};
use crate::json::{field_after_set, member, with_member, Tree};
use vstd::prelude::*;

verus! {

/// A parsed command has a bounded budget, works either in a local directory or in a node's
/// workspace, and a hidden run names no project.
pub proof fn parsed_commands_are_bounded(args: Seq<Option<Seq<char>>>)
    ensures
        match parsed(args) {
            Ok(Some(a)) => match a.command {
                CommandView::List => true,
                CommandView::Projects { cwd, timeout_secs } => 1 <= timeout_secs <= MAX_TIMEOUT_SECS && (cwd is Some) == (
                a.workspace is None),
                CommandView::CreateProject { cwd, timeout_secs, .. } => 1 <= timeout_secs <= MAX_TIMEOUT_SECS && (cwd is Some)
                    == (a.workspace is None),
                CommandView::Run { cwd, visibility, project, timeout_secs, .. } => {
                    &&& 1 <= timeout_secs <= MAX_TIMEOUT_SECS
                    &&& (cwd is Some) == (a.workspace is None)
                    &&& visibility == ConversationVisibility::Hidden ==> project is None
                },
            },
            _ => true,
        },
{
}

/// A command works on the instance that it names, and on a node's instance only within a
/// named workspace.
pub proof fn commands_stay_with_their_instance(r: RegistryView, a: ArgumentsView)
    requires
        registered(r),
    ensures
        match chosen(r, a) {
            Ok(s) => {
                &&& a.harness is Some ==> s.harness == a.harness->0
                &&& r.entries.contains_key(s.harness) && r.entries[s.harness].enabled
                &&& (r.entries[s.harness].adapter == REMOTE_NODE_ADAPTER@) == (s.remote is Some)
                &&& s.remote is Some ==> a.workspace == Some(s.remote->0.workspace_id)
            },
            Err(_) => true,
        },
{
}

/// A set field other than these two leaves them.
proof fn leaves(t: Tree, key: Seq<char>, value: Tree)
    requires
        t is Object,
        key != "status"@,
        key != "auto_retry"@,
    ensures
        with_member(t, key, value) is Object,
        member(with_member(t, key, value), "status"@) == member(t, "status"@),
        member(with_member(t, key, value), "auto_retry"@) == member(t, "auto_retry"@),
{
    field_after_set(t->Object_0, key, value, "status"@);
    field_after_set(t->Object_0, key, value, "auto_retry"@);
}

proof fn base_says(f: Fault)
    ensures
        base_tree(f) is Object,
        member(base_tree(f), "status"@) == Some(Tree::Text(status_of(f))),
        member(base_tree(f), "auto_retry"@) == Some(Tree::Bool(false)),
{
    reveal_strlit("status");
    reveal_strlit("code");
    reveal_strlit("category");
    reveal_strlit("message");
    reveal_strlit("auto_retry");
    assert("status"@.len() == 6 && "code"@.len() == 4 && "category"@.len() == 8 && "message"@.len() == 7
        && "auto_retry"@.len() == 10);
    let o = Seq::<(Seq<char>, Tree)>::empty();
    let a = with_member(empty_object(), "status"@, Tree::Text(status_of(f)));
    field_after_set(o, "status"@, Tree::Text(status_of(f)), "status"@);
    leaves(a, "code"@, Tree::Text(category_of(f)));
    let b = with_member(a, "code"@, Tree::Text(category_of(f)));
    leaves(b, "category"@, Tree::Text(category_of(f)));
    let c = with_member(b, "category"@, Tree::Text(category_of(f)));
    leaves(c, "message"@, Tree::Text(fault_message(f)));
    let d = with_member(c, "message"@, Tree::Text(fault_message(f)));
    field_after_set(d->Object_0, "auto_retry"@, Tree::Bool(false), "status"@);
    field_after_set(d->Object_0, "auto_retry"@, Tree::Bool(false), "auto_retry"@);
}

/// A shown failure never asks for an automatic retry, and says that an outcome is unknown
/// exactly where a conversation or a project may have come about.
pub proof fn failures_say_what_may_have_happened(f: Fault)
    ensures
        member(error_tree(f), "auto_retry"@) == Some(Tree::Bool(false)),
        member(error_tree(f), "status"@) == Some(Tree::Text(status_of(f))),
        (status_of(f) == "unknown"@) == (f is ProjectCreationOutcomeUnknown || f is ConversationOutcomeUnknown),
{
    reveal_strlit("status");
    reveal_strlit("auto_retry");
    reveal_strlit("harness_id");
    reveal_strlit("name");
    reveal_strlit("cwd");
    reveal_strlit("idempotency_key");
    reveal_strlit("native_project_id");
    reveal_strlit("reason");
    reveal_strlit("client_project_grouping");
    reveal_strlit("thread_id");
    reveal_strlit("visibility");
    reveal_strlit("timeout_seconds");
    reveal_strlit("unknown");
    reveal_strlit("failed");
    reveal_strlit("canceled");
    assert("status"@.len() == 6 && "status"@[0] == 's' && "auto_retry"@.len() == 10 && "auto_retry"@[0] == 'a');
    assert("harness_id"@[0] == 'h' && "name"@.len() == 4 && "cwd"@.len() == 3 && "idempotency_key"@.len() == 15
        && "native_project_id"@.len() == 17 && "reason"@[0] == 'r' && "client_project_grouping"@.len() == 23
        && "thread_id"@.len() == 9 && "visibility"@[0] == 'v' && "timeout_seconds"@.len() == 15);
    assert("unknown"@.len() == 7 && "failed"@.len() == 6 && "canceled"@.len() == 8);
    base_says(f);
    let base = base_tree(f);
    match f {
        Fault::ProjectCreationOutcomeUnknown(u) => {
            let a = with_member(base, "harness_id"@, Tree::Text(u.harness));
            leaves(base, "harness_id"@, Tree::Text(u.harness));
            let b = with_member(a, "name"@, Tree::Text(u.name));
            leaves(a, "name"@, Tree::Text(u.name));
            let c = with_member(b, "cwd"@, Tree::Text(u.root_directory));
            leaves(b, "cwd"@, Tree::Text(u.root_directory));
            let d = with_member(c, "idempotency_key"@, Tree::Text(u.idempotency_key));
            leaves(c, "idempotency_key"@, Tree::Text(u.idempotency_key));
            let id = text_or_null(u.project_id);
            let e = with_member(d, "native_project_id"@, id);
            leaves(d, "native_project_id"@, id);
            let g = with_member(e, "reason"@, Tree::Text(u.message));
            leaves(e, "reason"@, Tree::Text(u.message));
            leaves(g, "client_project_grouping"@, grouping_tree(GroupingView::Unverified));
        },
        Fault::ConversationOutcomeUnknown(u) => {
            let a = with_member(base, "harness_id"@, Tree::Text(u.harness));
            leaves(base, "harness_id"@, Tree::Text(u.harness));
            let thread = text_or_null(u.thread_id);
            let b = with_member(a, "thread_id"@, thread);
            leaves(a, "thread_id"@, thread);
            let c = with_member(b, "cwd"@, Tree::Text(u.project_directory));
            leaves(b, "cwd"@, Tree::Text(u.project_directory));
            let d = with_member(c, "visibility"@, Tree::Text(visibility_text(u.visibility)));
            leaves(c, "visibility"@, Tree::Text(visibility_text(u.visibility)));
            let id = text_or_null(u.native_project_id);
            let e = with_member(d, "native_project_id"@, id);
            leaves(d, "native_project_id"@, id);
            let g = with_member(e, "reason"@, Tree::Text(u.message));
            leaves(e, "reason"@, Tree::Text(u.message));
            let grouping = grouping_tree(
                if u.visibility == ConversationVisibility::Hidden {
                    GroupingView::NotApplicable
                } else {
                    GroupingView::Unverified
                },
            );
            leaves(g, "client_project_grouping"@, grouping);
        },
        Fault::WorkspaceDenied(path) => {
            leaves(base, "cwd"@, Tree::Text(path));
        },
        Fault::UnknownProject(h, p) => {
            leaves(base, "harness_id"@, Tree::Text(h));
            leaves(with_member(base, "harness_id"@, Tree::Text(h)), "native_project_id"@, Tree::Text(p));
        },
        Fault::DeadlineExceeded(h, s) => {
            leaves(base, "harness_id"@, Tree::Text(h));
            leaves(with_member(base, "harness_id"@, Tree::Text(h)), "timeout_seconds"@, Tree::Unsigned(s));
        },
        _ => {
            if harness_in(f) is Some {
                leaves(base, "harness_id"@, Tree::Text(harness_in(f)->0));
            }
        },
    }
}

} // verus!
