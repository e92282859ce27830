//! What is shown of repairs and incidents: the state that follows from their records, the
//! newest receipt, the counts, and what may be asked of an incident.
use super::journal::ReceiptView;
use super::monitoring::{
    counts_tree, detail_tree, how_many, incident_matches, incident_tree, incidents_paged, incidents_selected, monitor_answer,
    monitor_tree, overview_tree, query_ok, source_named, source_snapshot, stale, troubled, unhealthy, with_status,
    IncidentQueryView,
};
use super::repairs::{
    counted, final_response, from_records, latest, repair_status, starts, summary_of, tasks, touched, ProjectionView,
};
use crate::json::laws::group_members;
use crate::json::{member, Tree};
use crate::monitors::state::MonitorSnapshot;
use crate::monitors::{Coverage, Freshness, TargetHealth};
use crate::recovery::approval::ApprovalState;
use crate::recovery::incidents::{IncidentKind, IncidentStatus, IncidentView, SignalCondition};
use crate::text::{byte_len, less, less_irreflexive, less_total, less_transitive, lowercased, occurs};
use vstd::prelude::*;

verus! {

broadcast use group_members;

// Repairs.

/// Whether a receipt is of a repair that names the task.
pub open spec fn receipt_of(o: ReceiptView, task: Seq<char>) -> bool {
    o.kind == "repair"@ && member(o.context, "taskId"@) == Some(Tree::Text(task))
}

/// What is said of a repair: an unknown outcome anywhere is said before all else, then work
/// that is going on, then what was refused or failed, then what waits for a person; it is
/// completed only when every step was executed. Without any step its own receipt says it.
pub proof fn repairs_are_what_their_steps_are(
    ops: Seq<ReceiptView>,
    records: Seq<ProjectionView>,
    task: Seq<char>,
    own: Tree,
    i: int,
    k: int,
)
    requires
        0 <= i < ops.len(),
        0 <= k < records.len(),
    ensures
        receipt_of(ops[i], task) && ops[i].status == "unknown"@ ==> repair_status(ops, records, task, own) == Tree::Text(
            "unknown"@,
        ),
        records[k].task_id == task && records[k].state == ApprovalState::Unknown ==> repair_status(ops, records, task, own)
            == Tree::Text("unknown"@),
        receipt_of(ops[i], task) && ops[i].status == "running"@ ==> repair_status(ops, records, task, own) == Tree::Text(
            "unknown"@,
        ) || repair_status(ops, records, task, own) == Tree::Text("running"@),
        records[k].task_id == task && records[k].state == ApprovalState::Executing ==> repair_status(
            ops,
            records,
            task,
            own,
        ) == Tree::Text("unknown"@) || repair_status(ops, records, task, own) == Tree::Text("running"@),
{
}

/// What a repair is called when none of its receipts is unknown or running.
pub proof fn quiet_repairs_are_what_their_steps_are(
    ops: Seq<ReceiptView>,
    records: Seq<ProjectionView>,
    task: Seq<char>,
    own: Tree,
)
    requires
        forall|i: int|
            0 <= i < ops.len() && receipt_of(#[trigger] ops[i], task) ==> ops[i].status != "unknown"@ && ops[i].status
                != "running"@,
        forall|k: int|
            0 <= k < records.len() && (#[trigger] records[k]).task_id == task ==> records[k].state != ApprovalState::Unknown
                && records[k].state != ApprovalState::Executing,
    ensures
        (forall|k: int| 0 <= k < records.len() ==> (#[trigger] records[k]).task_id != task) ==> repair_status(
            ops,
            records,
            task,
            own,
        ) == own,
        (exists|k: int|
            0 <= k < records.len() && (#[trigger] records[k]).task_id == task && (records[k].state == ApprovalState::Denied
                || records[k].state == ApprovalState::Revoked || records[k].state == ApprovalState::Expired || records[k].state
                == ApprovalState::Failed)) ==> repair_status(ops, records, task, own) == Tree::Text("blocked"@),
        (forall|k: int|
            0 <= k < records.len() && (#[trigger] records[k]).task_id == task ==> records[k].state != ApprovalState::Denied
                && records[k].state != ApprovalState::Revoked && records[k].state != ApprovalState::Expired
                && records[k].state != ApprovalState::Failed) ==> {
            &&& (exists|k: int|
                0 <= k < records.len() && (#[trigger] records[k]).task_id == task && (records[k].state
                    == ApprovalState::Pending || records[k].state == ApprovalState::WaitingHuman || records[k].state
                    == ApprovalState::Approved)) ==> repair_status(ops, records, task, own) == Tree::Text("waiting_human"@)
            &&& (exists|k: int| 0 <= k < records.len() && (#[trigger] records[k]).task_id == task) && (forall|k: int|
                0 <= k < records.len() && (#[trigger] records[k]).task_id == task ==> records[k].state
                    == ApprovalState::Executed) ==> repair_status(ops, records, task, own) == Tree::Text("completed"@)
            &&& (exists|k: int|
                0 <= k < records.len() && (#[trigger] records[k]).task_id == task && records[k].state
                    == ApprovalState::Canceled) && (forall|k: int|
                0 <= k < records.len() && (#[trigger] records[k]).task_id == task ==> records[k].state
                    == ApprovalState::Executed || records[k].state == ApprovalState::Canceled) ==> repair_status(
                ops,
                records,
                task,
                own,
            ) == Tree::Text("canceled"@)
        },
{
    if exists|k: int| 0 <= k < records.len() && (#[trigger] records[k]).task_id == task {
        assert(from_records(records, task));
    }
}

/// Whether a receipt belongs to a task: it names it, or names none and has its identifier.
pub open spec fn belongs(o: ReceiptView, task: Seq<char>, named: bool) -> bool {
    &&& o.kind == "repair"@
    &&& member(o.context, "taskId"@) == Some(Tree::Text(task)) || (!named && o.id == task && !(member(
        o.context,
        "taskId"@,
    ) is Some && member(o.context, "taskId"@)->0 is Text))
}

/// Of a task's receipts the newest counts, and of those from the same moment the last
/// identifier: no other receipt of the task is newer than the one that is found.
pub proof fn the_newest_receipt_counts(ops: Seq<ReceiptView>, task: Seq<char>, named: bool)
    ensures
        latest(ops, task, named) is None ==> forall|i: int|
            0 <= i < ops.len() ==> !belongs(#[trigger] ops[i], task, named),
        latest(ops, task, named) is Some ==> ops.contains(latest(ops, task, named)->0) && belongs(
            latest(ops, task, named)->0,
            task,
            named,
        ) && forall|i: int|
            0 <= i < ops.len() && belongs(#[trigger] ops[i], task, named) ==> ops[i].updated_at <= latest(
                ops,
                task,
                named,
            )->0.updated_at && (ops[i].updated_at == latest(ops, task, named)->0.updated_at ==> !less(
                latest(ops, task, named)->0.id,
                ops[i].id,
            )),
    decreases ops.len(),
{
    if ops.len() > 0 {
        let front = ops.drop_last();
        let last = ops.last();
        the_newest_receipt_counts(front, task, named);
        let before = latest(front, task, named);
        let now = latest(ops, task, named);
        if before is Some {
            let j = choose|j: int| 0 <= j < front.len() && front[j] == before->0;
            assert(ops[j] == before->0);
            less_irreflexive(before->0.id);
        }
        less_irreflexive(last.id);
        assert(ops[ops.len() - 1] == last);
        if now is Some {
            assert forall|i: int| 0 <= i < ops.len() && belongs(#[trigger] ops[i], task, named) implies ops[i].updated_at
                <= now->0.updated_at && (ops[i].updated_at == now->0.updated_at ==> !less(now->0.id, ops[i].id)) by {
                if i < front.len() {
                    assert(front[i] == ops[i]);
                    if now->0 == last && before is Some && ops[i].updated_at == last.updated_at && less(last.id, ops[i].id) {
                        let b = before->0;
                        less_total(b.id, last.id);
                        less_total(b.id, ops[i].id);
                        if less(b.id, last.id) {
                            less_transitive(b.id, last.id, ops[i].id);
                        }
                    }
                } else if before is Some && now->0 == before->0 {
                    let b = before->0;
                    if b.updated_at == last.updated_at && less(b.id, last.id) {
                        less_transitive(b.id, last.id, b.id);
                    }
                }
            }
        } else {
            assert forall|i: int| 0 <= i < ops.len() implies !belongs(#[trigger] ops[i], task, named) by {
                if i < front.len() {
                    assert(front[i] == ops[i]);
                }
            }
        }
    }
}

/// What a repair answered is taken from its newest receipt, if that has a result.
pub proof fn answers_are_of_the_newest_receipt(ops: Seq<ReceiptView>, task: Seq<char>)
    ensures
        latest(ops, task, true) is None ==> final_response(ops, task) is Null,
        latest(ops, task, true) is Some && latest(ops, task, true)->0.result is Some && member(
            latest(ops, task, true)->0.result->0,
            "final_response"@,
        ) is Some ==> Some(final_response(ops, task)) == member(latest(ops, task, true)->0.result->0, "final_response"@),
{
}

/// A further record counts for its own task, moves the time of its last change forward and
/// never backward, and leaves other tasks as they were.
pub proof fn records_count_for_their_task(records: Seq<ProjectionView>, more: ProjectionView, task: Seq<char>, base: u64)
    ensures
        counted(Seq::empty(), task) == 0,
        touched(Seq::empty(), task, base) == base,
        more.task_id == task ==> counted(records.push(more), task) == counted(records, task) + 1,
        more.task_id != task ==> counted(records.push(more), task) == counted(records, task) && touched(
            records.push(more),
            task,
            base,
        ) == touched(records, task, base),
        more.task_id == task && more.updated_at * 1000 <= u64::MAX ==> touched(records.push(more), task, base)
            >= more.updated_at * 1000 && (touched(records.push(more), task, base) == more.updated_at * 1000 || touched(
            records.push(more),
            task,
            base,
        ) == touched(records, task, base)),
        touched(records.push(more), task, base) >= touched(records, task, base),
{
    assert(records.push(more).drop_last() =~= records);
}

/// The tasks that are shown: those of a repair's receipts and those of approvals, and no
/// others.
pub proof fn shown_tasks_have_a_source(ops: Seq<ReceiptView>, records: Seq<ProjectionView>, task: Seq<char>)
    ensures
        tasks(ops, records).contains(task) <==> (exists|i: int|
            0 <= i < ops.len() && belongs(#[trigger] ops[i], task, false)) || (exists|k: int|
            0 <= k < records.len() && (#[trigger] records[k]).task_id == task),
{
    if tasks(ops, records).contains(task) && !(exists|k: int| 0 <= k < records.len() && (#[trigger] records[k]).task_id
        == task) {
        let i = choose|i: int|
            0 <= i < ops.len() && super::repairs::is_repair(#[trigger] ops[i]) && super::repairs::task_key(ops[i]) == task;
        assert(belongs(ops[i], task, false));
    }
    if exists|i: int| 0 <= i < ops.len() && belongs(#[trigger] ops[i], task, false) {
        let i = choose|i: int| 0 <= i < ops.len() && belongs(#[trigger] ops[i], task, false);
        assert(super::repairs::is_repair(ops[i]) && super::repairs::task_key(ops[i]) == task);
    }
}

/// A repair is related to an incident if its receipt says that it was started from it.
pub proof fn repairs_are_related_by_their_receipts(ops: Seq<ReceiptView>, incident: Seq<char>, task: Seq<char>, i: int)
    requires
        0 <= i < ops.len(),
        ops[i].kind == "repair"@,
        member(ops[i].context, "taskId"@) == Some(Tree::Text(task)),
        member(ops[i].context, "sourceIncident"@) is Some,
    ensures
        member(member(ops[i].context, "sourceIncident"@)->0, "id"@) == Some(Tree::Text(incident)) ==> starts(
            ops,
            incident,
            task,
        ),
        ops.len() == 1 && member(member(ops[i].context, "sourceIncident"@)->0, "id"@) != Some(Tree::Text(incident)) ==> !starts(
            ops,
            incident,
            task,
        ),
{
}

/// A summary shows the receipt of its task: the target that the receipt names, how it stands,
/// the session that it ran in, and the incident that it came from.
pub proof fn summaries_show_their_receipt(
    ops: Seq<ReceiptView>,
    records: Seq<ProjectionView>,
    task: Seq<char>,
    target: Option<Seq<char>>,
)
    ensures
        summary_of(ops, records, task, target).operation_count == counted(records, task),
        latest(ops, task, false) is Some ==> {
            let o = latest(ops, task, false)->0;
            let s = summary_of(ops, records, task, target);
            &&& member(o.context, "target"@) is Some && !(member(o.context, "target"@)->0 is Text) ==> Some(s.target)
                == member(o.context, "target"@)
            &&& member(o.context, "sourceIncident"@) is Some && !(member(o.context, "sourceIncident"@)->0 is Text) ==> Some(
                s.source_incident,
            ) == member(o.context, "sourceIncident"@)
            &&& s.updated_at == touched(records, task, o.updated_at)
        },
        latest(ops, task, false) is None ==> {
            let s = summary_of(ops, records, task, target);
            &&& s.harness_id is Null && s.thread_id is Null && s.session_id is Null && s.source_incident is Null
            &&& s.updated_at == touched(records, task, 0)
        },
{
}

// Incidents.

/// How a monitoring failure is answered: a wrong request as such, what is not there as not
/// found, another revision as a conflict, and everything else as a service that is not
/// available.
pub proof fn monitoring_failures_are_answered_by_kind(f: crate::monitors::Fault)
    ensures
        monitor_answer(f).status == 404 <==> f is Incident && f->Incident_0 is NotFound,
        monitor_answer(f).status == 409 <==> f is Incident && f->Incident_0 is Conflict,
        monitor_answer(f).status == 400 <==> f is Configuration || f is Observation || (f is Incident
            && f->Incident_0 is Invalid),
        monitor_answer(f).status == 400 || monitor_answer(f).status == 404 || monitor_answer(f).status == 409
            || monitor_answer(f).status == 503,
{
}

/// A shown incident says what it is of, how it stands and when it was seen.
pub proof fn incidents_are_shown_as_they_are(r: IncidentView)
    ensures
        member(incident_tree(r), "id"@) == Some(Tree::Text(r.id)),
        member(incident_tree(r), "revision"@) == Some(Tree::Unsigned(r.revision)),
        member(incident_tree(r), "monitor_id"@) == Some(Tree::Text(r.monitor_id)),
        member(incident_tree(r), "target_id"@) == Some(Tree::Text(r.target_id)),
        member(incident_tree(r), "rule_id"@) == Some(Tree::Text(r.rule_id)),
        r.kind == IncidentKind::Target ==> member(incident_tree(r), "kind"@) == Some(Tree::Text("target"@)),
        r.kind == IncidentKind::Coverage ==> member(incident_tree(r), "kind"@) == Some(Tree::Text("coverage"@)),
        r.status == IncidentStatus::Open ==> member(incident_tree(r), "status"@) == Some(Tree::Text("open"@)),
        r.status == IncidentStatus::Acknowledged ==> member(incident_tree(r), "status"@) == Some(
            Tree::Text("acknowledged"@),
        ),
        r.status == IncidentStatus::Resolved ==> member(incident_tree(r), "status"@) == Some(Tree::Text("resolved"@)),
        r.condition == SignalCondition::Active ==> member(incident_tree(r), "condition"@) == Some(Tree::Text("active"@)),
        r.condition == SignalCondition::Clear ==> member(incident_tree(r), "condition"@) == Some(Tree::Text("clear"@)),
        r.condition == SignalCondition::Unknown ==> member(incident_tree(r), "condition"@) == Some(Tree::Text("unknown"@)),
        member(incident_tree(r), "first_seen"@) == Some(Tree::Unsigned(r.first_seen)),
        member(incident_tree(r), "last_seen"@) == Some(Tree::Unsigned(r.last_seen)),
        r.resolved_at is None ==> member(incident_tree(r), "resolved_at"@) == Some(Tree::Null),
        r.resolved_at is Some ==> member(incident_tree(r), "resolved_at"@) == Some(Tree::Unsigned(r.resolved_at->0)),
        member(incident_tree(r), "occurrences"@) == Some(Tree::Unsigned(r.occurrences)),
{
    reveal_strlit("id");
    reveal_strlit("revision");
    reveal_strlit("monitor_id");
    reveal_strlit("target_id");
    reveal_strlit("rule_id");
    reveal_strlit("kind");
    reveal_strlit("status");
    reveal_strlit("condition");
    reveal_strlit("summary");
    reveal_strlit("first_seen");
    reveal_strlit("last_seen");
    reveal_strlit("resolved_at");
    reveal_strlit("occurrences");
    reveal_strlit("detail");
    assert("id"@.len() == 2 && "revision"@.len() == 8 && "monitor_id"@.len() == 10 && "target_id"@.len() == 9
        && "rule_id"@.len() == 7 && "kind"@.len() == 4 && "status"@.len() == 6 && "condition"@.len() == 9
        && "summary"@.len() == 7 && "first_seen"@.len() == 10 && "last_seen"@.len() == 9
        && "resolved_at"@.len() == 11 && "occurrences"@.len() == 11 && "detail"@.len() == 6
        && "monitor_id"@[0] == 'm' && "first_seen"@[0] == 'f' && "target_id"@[0] == 't'
        && "condition"@[0] == 'c' && "last_seen"@[0] == 'l' && "rule_id"@[0] == 'r' && "summary"@[0] == 's'
        && "status"@[0] == 's' && "detail"@[0] == 'd' && "resolved_at"@[0] == 'r'
        && "occurrences"@[0] == 'o');
}

/// A further incident counts once, under its own status; open and acknowledged ones are
/// active.
pub proof fn incidents_are_counted_by_status(items: Seq<Tree>, more: Tree, status: Seq<char>)
    ensures
        with_status(Seq::empty(), status) == 0,
        member(more, "status"@) == Some(Tree::Text(status)) ==> with_status(items.push(more), status) == with_status(
            items,
            status,
        ) + 1,
        member(more, "status"@) != Some(Tree::Text(status)) ==> with_status(items.push(more), status) == with_status(
            items,
            status,
        ),
        member(counts_tree(items), "open"@) == Some(Tree::Unsigned(with_status(items, "open"@) as u64)),
        member(counts_tree(items), "acknowledged"@) == Some(Tree::Unsigned(with_status(items, "acknowledged"@) as u64)),
        member(counts_tree(items), "resolved"@) == Some(Tree::Unsigned(with_status(items, "resolved"@) as u64)),
        member(counts_tree(items), "active"@) == Some(
            Tree::Unsigned((with_status(items, "open"@) + with_status(items, "acknowledged"@)) as u64),
        ),
        member(counts_tree(items), "total"@) == Some(Tree::Unsigned(items.len() as u64)),
{
    reveal_strlit("open");
    reveal_strlit("acknowledged");
    reveal_strlit("resolved");
    reveal_strlit("active");
    reveal_strlit("total");
    assert("open"@.len() == 4 && "acknowledged"@.len() == 12 && "resolved"@.len() == 8 && "active"@.len() == 6
        && "total"@.len() == 5);
    assert(items.push(more).drop_last() =~= items);
}

/// A further monitor counts as unhealthy, as stale, or as one that is not fully observed,
/// exactly when it is.
pub proof fn monitors_are_counted_as_they_stand(list: Seq<MonitorSnapshot>, m: MonitorSnapshot)
    ensures
        how_many(list.push(m), |m: MonitorSnapshot| unhealthy(m)) == how_many(list, |m: MonitorSnapshot| unhealthy(m)) + (
        if m.health == TargetHealth::Unhealthy { 1nat } else { 0nat }),
        how_many(list.push(m), |m: MonitorSnapshot| stale(m)) == how_many(list, |m: MonitorSnapshot| stale(m)) + (
        if m.freshness == Freshness::Stale { 1nat } else { 0nat }),
        how_many(list.push(m), |m: MonitorSnapshot| troubled(m)) == how_many(list, |m: MonitorSnapshot| troubled(m)) + (
        if m.coverage == Coverage::Complete && m.freshness == Freshness::Fresh { 0nat } else { 1nat }),
{
    assert(list.push(m).drop_last() =~= list);
}

/// An overview shows those counts.
pub proof fn overviews_show_the_counts(list: Seq<MonitorSnapshot>, incidents: Option<Seq<Tree>>)
    ensures
        member(overview_tree(list, incidents), "monitors"@) == Some(Tree::Unsigned(list.len() as u64)),
        member(overview_tree(list, incidents), "unhealthy"@) == Some(
            Tree::Unsigned(how_many(list, |m: MonitorSnapshot| unhealthy(m)) as u64),
        ),
        member(overview_tree(list, incidents), "stale"@) == Some(
            Tree::Unsigned(how_many(list, |m: MonitorSnapshot| stale(m)) as u64),
        ),
        member(overview_tree(list, incidents), "collection_issues"@) == Some(
            Tree::Unsigned(how_many(list, |m: MonitorSnapshot| troubled(m)) as u64),
        ),
        incidents is None ==> member(overview_tree(list, incidents), "incidents"@) == Some(Tree::Null),
        incidents is Some ==> member(overview_tree(list, incidents), "incidents"@) == Some(counts_tree(incidents->0)),
{
    reveal_strlit("monitors");
    reveal_strlit("targets");
    reveal_strlit("unhealthy");
    reveal_strlit("stale");
    reveal_strlit("collection_issues");
    reveal_strlit("incidents");
    assert("monitors"@.len() == 8 && "targets"@.len() == 7 && "unhealthy"@.len() == 9 && "stale"@.len() == 5
        && "collection_issues"@.len() == 17 && "incidents"@.len() == 9 && "unhealthy"@[0] == 'u'
        && "incidents"@[0] == 'i');
}

/// Whether an incident has the value that is asked for; an empty one asks for nothing.
pub open spec fn has(t: Tree, key: Seq<char>, wanted: Option<Seq<char>>) -> bool {
    wanted is None || wanted->0.len() == 0 || member(t, key) == Some(Tree::Text(wanted->0))
}

/// Which incidents a query finds by status: without one, or by "active", all that are not
/// resolved; by "all", every one; otherwise those of that status. Identifiers and kinds that
/// are asked for are met exactly.
pub proof fn incidents_are_found_by_what_is_asked(t: Tree, q: IncidentQueryView)
    ensures
        incident_matches(t, q) ==> has(t, "target_id"@, q.target_id) && has(t, "monitor_id"@, q.monitor_id),
        incident_matches(t, q) && q.kind != Some("all"@) ==> has(t, "kind"@, q.kind),
        incident_matches(t, q) && (q.status is None || q.status == Some("active"@)) ==> member(t, "status"@) != Some(
            Tree::Text("resolved"@),
        ),
        incident_matches(t, q) && (q.status == Some("open"@) || q.status == Some("acknowledged"@) || q.status == Some(
            "resolved"@,
        )) ==> member(t, "status"@) == Some(Tree::Text(q.status->0)),
        has(t, "target_id"@, q.target_id) && has(t, "monitor_id"@, q.monitor_id) && (q.kind == Some("all"@) || has(
            t,
            "kind"@,
            q.kind,
        )) && q.query is Some && lowercased(q.query->0).len() == 0 && (q.status == Some("all"@) || ((q.status is None || q.status == Some("active"@)) && member(
            t,
            "status"@,
        ) != Some(Tree::Text("resolved"@))) || (q.status is Some && member(t, "status"@) == Some(
            Tree::Text(q.status->0),
        ))) ==> incident_matches(t, q),
{
    reveal_strlit("all");
    reveal_strlit("open");
    reveal_strlit("active");
    reveal_strlit("acknowledged");
    reveal_strlit("resolved");
    assert("all"@.len() == 3 && "open"@.len() == 4 && "active"@.len() == 6 && "acknowledged"@.len() == 12
        && "resolved"@.len() == 8);
}

/// A search finds an incident by its identifier, its monitor, target or rule, or its summary,
/// whatever the case of the letters.
pub proof fn incidents_are_searched_by_their_texts(t: Tree, q: IncidentQueryView)
    requires
        incident_matches(t, q),
        q.query is Some,
        lowercased(q.query->0).len() > 0,
    ensures
        exists|key: Seq<char>|
            (key == "id"@ || key == "monitor_id"@ || key == "target_id"@ || key == "rule_id"@ || key == "summary"@)
                && #[trigger] member(t, key) is Some && member(t, key)->0 is Text && occurs(
                lowercased(member(t, key)->0->Text_0),
                lowercased(q.query->0),
            ),
{
    if super::monitoring::mentions(t, "id"@, lowercased(q.query->0)) {
        assert(member(t, "id"@) is Some);
    } else if super::monitoring::mentions(t, "monitor_id"@, lowercased(q.query->0)) {
        assert(member(t, "monitor_id"@) is Some);
    } else if super::monitoring::mentions(t, "target_id"@, lowercased(q.query->0)) {
        assert(member(t, "target_id"@) is Some);
    } else if super::monitoring::mentions(t, "rule_id"@, lowercased(q.query->0)) {
        assert(member(t, "rule_id"@) is Some);
    } else {
        assert(member(t, "summary"@) is Some);
    }
}

/// Accepted queries are bounded, and name a status and a kind that exist.
pub proof fn incident_queries_are_bounded(items: Seq<Tree>, q: IncidentQueryView, now: u64)
    ensures
        query_ok(q) ==> {
            &&& q.limit is Some ==> 1 <= q.limit->0 <= 100
            &&& q.query is Some ==> byte_len(q.query->0) <= 256
            &&& q.cursor is Some ==> 0 < q.cursor->0.len() && byte_len(q.cursor->0) <= 128
            &&& q.status is Some ==> q.status->0 == "active"@ || q.status->0 == "all"@ || q.status->0 == "open"@
                || q.status->0 == "acknowledged"@ || q.status->0 == "resolved"@
            &&& q.kind is Some ==> q.kind->0.len() == 0 || q.kind->0 == "all"@ || q.kind->0 == "target"@ || q.kind->0
                == "coverage"@
        },
        incidents_paged(items, q, now) is Ok <==> query_ok(q),
        incidents_paged(items, q, now) is Err ==> incidents_paged(items, q, now)->Err_0.status == 400,
        q.limit == Some(0usize) || q.limit == Some(101usize) ==> !query_ok(q),
        q.limit is None && q.cursor is None && q.target_id is None && q.monitor_id is None && q.kind is None && q.query is None
            && q.status is None ==> query_ok(q),
{
}

/// A query's incidents are those of the list that match, in their order, and no others.
pub proof fn found_incidents_match(items: Seq<Tree>, q: IncidentQueryView, more: Tree)
    ensures
        incidents_selected(Seq::empty(), q).len() == 0,
        incident_matches(more, q) ==> incidents_selected(items.push(more), q) == incidents_selected(items, q).push(more),
        !incident_matches(more, q) ==> incidents_selected(items.push(more), q) == incidents_selected(items, q),
{
    assert(items.push(more).drop_last() =~= items);
}

/// Only an open incident can be acknowledged, and only by who may; nothing that is shown says
/// that the fault is over, or asks for a retry.
pub proof fn open_incidents_can_be_acknowledged(value: Tree, may: bool, related: Tree)
    requires
        value is Object,
    ensures
        member(value, "status"@) == Some(Tree::Text("open"@)) && may ==> member(
            detail_tree(value, may, related),
            "allowed_actions"@,
        ) == Some(Tree::Array(seq![Tree::Text("acknowledge"@)])),
        member(value, "status"@) != Some(Tree::Text("open"@)) || !may ==> member(
            detail_tree(value, may, related),
            "allowed_actions"@,
        ) == Some(Tree::Array(Seq::empty())),
        member(detail_tree(value, may, related), "business_verified"@) == Some(Tree::Bool(false)),
        member(detail_tree(value, may, related), "auto_retry"@) == Some(Tree::Bool(false)),
        member(detail_tree(value, may, related), "related_repairs"@) == Some(related),
        member(detail_tree(value, may, related), "status"@) == member(value, "status"@),
{
    reveal_strlit("allowed_actions");
    reveal_strlit("auto_retry");
    reveal_strlit("business_verified");
    reveal_strlit("related_repairs");
    reveal_strlit("status");
    assert("allowed_actions"@.len() == 15 && "auto_retry"@.len() == 10 && "business_verified"@.len() == 17
        && "related_repairs"@.len() == 15 && "status"@.len() == 6 && "allowed_actions"@[0] == 'a'
        && "related_repairs"@[0] == 'r');
}

/// A monitor is shown with its plugin and its log source, and otherwise as it is.
pub proof fn monitors_are_shown_with_their_source(value: Tree, owner: Option<Seq<char>>, logs: (bool, Option<Seq<char>>), key: Seq<char>)
    requires
        value is Object,
    ensures
        owner is Some ==> member(monitor_tree(value, owner, logs), "owner_plugin_id"@) == Some(Tree::Text(owner->0)),
        owner is None ==> member(monitor_tree(value, owner, logs), "owner_plugin_id"@) == Some(Tree::Null),
        member(monitor_tree(value, owner, logs), "logs_available"@) == Some(Tree::Bool(logs.0)),
        logs.1 is Some ==> member(monitor_tree(value, owner, logs), "log_source_id"@) == Some(Tree::Text(logs.1->0)),
        key != "owner_plugin_id"@ && key != "logs_available"@ && key != "log_source_id"@ ==> member(
            monitor_tree(value, owner, logs),
            key,
        ) == member(value, key),
{
    reveal_strlit("owner_plugin_id");
    reveal_strlit("logs_available");
    reveal_strlit("log_source_id");
    assert("owner_plugin_id"@.len() == 15 && "logs_available"@.len() == 14 && "log_source_id"@.len() == 13);
}

/// A source incident is named by identifier and positive revision together, or not at all.
pub proof fn sources_are_named_whole(id: Option<Seq<char>>, revision: Option<u64>)
    ensures
        id is None && revision is None ==> source_named(id, revision) == Ok::<Option<(Seq<char>, u64)>, super::Refusal>(None),
        (id is Some) != (revision is Some) ==> source_named(id, revision) is Err,
        revision == Some(0u64) ==> source_named(id, revision) is Err,
        source_named(id, revision) is Ok && id is Some ==> revision is Some && revision->0 > 0 && 0 < id->0.len() && byte_len(
            id->0,
        ) <= 128 && source_named(id, revision)->Ok_0 == Some((id->0, revision->0)),
        source_named(id, revision) is Err ==> source_named(id, revision)->Err_0.status == 400,
{
}

/// A repair starts from an incident only as it was read: the same revision, of the target
/// that is asked for and that the repairs may touch.
pub proof fn repairs_start_from_the_incident_read(
    r: Option<IncidentView>,
    revision: u64,
    target: Seq<char>,
    allowed: Seq<Seq<char>>,
    now: u64,
)
    ensures
        source_snapshot(r, revision, target, allowed, now) is Ok <==> r is Some && r->0.revision == revision && r->0.target_id
            == target && allowed.contains(target),
        r is None ==> source_snapshot(r, revision, target, allowed, now)->Err_0.status == 404,
        r is Some && source_snapshot(r, revision, target, allowed, now) is Err ==> source_snapshot(
            r,
            revision,
            target,
            allowed,
            now,
        )->Err_0.status == 409,
        source_snapshot(r, revision, target, allowed, now) is Ok ==> member(
            source_snapshot(r, revision, target, allowed, now)->Ok_0,
            "captured_at"@,
        ) == Some(Tree::Unsigned(now)) && member(source_snapshot(r, revision, target, allowed, now)->Ok_0, "revision"@) == Some(
            Tree::Unsigned(revision),
        ) && member(source_snapshot(r, revision, target, allowed, now)->Ok_0, "target_id"@) == Some(Tree::Text(target)),
{
    reveal_strlit("captured_at");
    reveal_strlit("revision");
    reveal_strlit("target_id");
    assert("captured_at"@.len() == 11 && "revision"@.len() == 8 && "target_id"@.len() == 9);
    if r is Some {
        incidents_are_shown_as_they_are(r->0);
    }
}

} // verus!
