//! What is known of each repair, from receipts and durable approvals.
use super::history::{bounded, bounded_tree, milli, millis, MAX_SHOWN};
use super::journal::{Operation, ReceiptView};
use super::paging::{text_in, text_under, value_in, value_under};
use crate::interfaces::repair::lists;
use crate::json::values::text_value;
use crate::json::{group_json, member, Json, Tree};
use crate::recovery::approval::{ApprovalRecord, ApprovalState, RecordView};
use crate::table::Table;
use crate::text::{before, clip, clipped, copied, less, same};
use vstd::prelude::*;

verus! {

broadcast use group_json;

/// What a summary takes from an approval.
pub struct ApprovalProjection {
    pub task_id: String,
    pub target: Json,
    pub state: ApprovalState,
    pub updated_at: u64,
}

pub struct ProjectionView {
    pub task_id: Seq<char>,
    pub target: Tree,
    pub state: ApprovalState,
    pub updated_at: u64,
}

impl View for ApprovalProjection {
    type V = ProjectionView;

    open spec fn view(&self) -> ProjectionView {
        ProjectionView { task_id: self.task_id@, target: self.target@, state: self.state, updated_at: self.updated_at }
    }
}

pub open spec fn projection(r: RecordView) -> ProjectionView {
    ProjectionView {
        task_id: r.request.operation.task_id,
        target: bounded_tree(Tree::Text(r.request.operation.target)),
        state: r.state,
        updated_at: r.updated_at,
    }
}

pub fn project(record: &ApprovalRecord) -> (r: ApprovalProjection)
    ensures
        r@ == projection(record@),
{
    ApprovalProjection {
        task_id: record.request.operation.task_id.clone(),
        target: text_value(&clip(&record.request.operation.target, MAX_SHOWN)),
        state: record.state,
        updated_at: record.updated_at,
    }
}

pub open spec fn projections(list: Seq<ApprovalProjection>) -> Seq<ProjectionView> {
    list.map_values(|p: ApprovalProjection| p@)
}

/// What is known of one repair.
pub struct RepairSummary {
    pub id: String,
    pub target: Json,
    pub status: Json,
    pub summary: String,
    pub operation_count: u64,
    pub updated_at: u64,
    pub harness_id: Json,
    pub thread_id: Json,
    pub session_id: Json,
    pub source_incident: Json,
}

pub struct SummaryView {
    pub id: Seq<char>,
    pub target: Tree,
    pub status: Tree,
    pub summary: Seq<char>,
    pub operation_count: nat,
    pub updated_at: u64,
    pub harness_id: Tree,
    pub thread_id: Tree,
    pub session_id: Tree,
    pub source_incident: Tree,
}

impl View for RepairSummary {
    type V = SummaryView;

    open spec fn view(&self) -> SummaryView {
        SummaryView {
            id: self.id@,
            target: self.target@,
            status: self.status@,
            summary: self.summary@,
            operation_count: self.operation_count as nat,
            updated_at: self.updated_at,
            harness_id: self.harness_id@,
            thread_id: self.thread_id@,
            session_id: self.session_id@,
            source_incident: self.source_incident@,
        }
    }
}

/// The receipts of a journal, in the order of their identities.
pub open spec fn receipts_in(list: Seq<(String, Operation)>) -> Seq<ReceiptView> {
    list.map_values(|e: (String, Operation)| e.1@)
}

pub open spec fn is_repair(o: ReceiptView) -> bool {
    o.kind == "repair"@
}

/// The task that a repair's receipt stands for.
pub open spec fn task_key(o: ReceiptView) -> Seq<char> {
    match text_in(o.context, "taskId"@) {
        Some(t) => t,
        None => o.id,
    }
}

pub open spec fn names_task(o: ReceiptView, task: Seq<char>) -> bool {
    is_repair(o) && text_in(o.context, "taskId"@) == Some(task)
}

/// Whether a receipt is newer than another.
pub open spec fn newer(a: ReceiptView, b: ReceiptView) -> bool {
    a.updated_at > b.updated_at || (a.updated_at == b.updated_at && less(b.id, a.id))
}

/// The newest of a task's receipts; `named` asks for those that name it.
pub open spec fn latest(ops: Seq<ReceiptView>, task: Seq<char>, named: bool) -> Option<ReceiptView>
    decreases ops.len(),
{
    if ops.len() == 0 {
        None
    } else {
        let front = latest(ops.drop_last(), task, named);
        let o = ops.last();
        if (if named { names_task(o, task) } else { is_repair(o) && task_key(o) == task }) && (front is None || !newer(
            front->0,
            o,
        )) {
            Some(o)
        } else {
            front
        }
    }
}

/// The tasks that anything is known of.
pub open spec fn tasks(ops: Seq<ReceiptView>, records: Seq<ProjectionView>) -> Set<Seq<char>> {
    Set::new(|t: Seq<char>| from_receipts(ops, t) || from_records(records, t))
}

pub open spec fn from_receipts(ops: Seq<ReceiptView>, t: Seq<char>) -> bool {
    exists|i: int| 0 <= i < ops.len() && is_repair(#[trigger] ops[i]) && task_key(ops[i]) == t
}

pub open spec fn from_records(records: Seq<ProjectionView>, t: Seq<char>) -> bool {
    exists|i: int| 0 <= i < records.len() && (#[trigger] records[i]).task_id == t
}

/// Some receipt of a task has this status.
pub open spec fn any_status(ops: Seq<ReceiptView>, task: Seq<char>, status: Seq<char>) -> bool {
    exists|i: int| 0 <= i < ops.len() && names_task(#[trigger] ops[i], task) && ops[i].status == status
}

pub open spec fn in_group(s: ApprovalState, group: int) -> bool {
    if group == 0 {
        s == ApprovalState::Unknown
    } else if group == 1 {
        s == ApprovalState::Executing
    } else if group == 2 {
        s == ApprovalState::Denied || s == ApprovalState::Revoked || s == ApprovalState::Expired || s == ApprovalState::Failed
    } else if group == 3 {
        s == ApprovalState::Pending || s == ApprovalState::WaitingHuman || s == ApprovalState::Approved
    } else if group == 4 {
        s != ApprovalState::Executed
    } else {
        true
    }
}

/// Some approval of a task is in a group of states.
pub open spec fn any_state(records: Seq<ProjectionView>, task: Seq<char>, group: int) -> bool {
    exists|i: int| 0 <= i < records.len() && (#[trigger] records[i]).task_id == task && in_group(records[i].state, group)
}

pub open spec fn counted(records: Seq<ProjectionView>, task: Seq<char>) -> nat
    decreases records.len(),
{
    if records.len() == 0 {
        0
    } else {
        counted(records.drop_last(), task) + (if records.last().task_id == task { 1nat } else { 0 })
    }
}

pub open spec fn later(a: u64, b: u64) -> u64 {
    if a >= b { a } else { b }
}

/// The last change of a task that its approvals tell of, or `base`.
pub open spec fn touched(records: Seq<ProjectionView>, task: Seq<char>, base: u64) -> u64
    decreases records.len(),
{
    if records.len() == 0 {
        base
    } else {
        let front = touched(records.drop_last(), task, base);
        if records.last().task_id == task { later(front, milli(records.last().updated_at)) } else { front }
    }
}

/// The first approval of a task.
pub open spec fn first_record(records: Seq<ProjectionView>, task: Seq<char>) -> Option<ProjectionView>
    decreases records.len(),
{
    if records.len() == 0 {
        None
    } else {
        match first_record(records.drop_last(), task) {
            Some(r) => Some(r),
            None => if records.last().task_id == task { Some(records.last()) } else { None },
        }
    }
}

/// The status of a repair. Durable approvals supersede what a finished workflow said, and
/// what is uncertain stays uncertain.
pub open spec fn repair_status(ops: Seq<ReceiptView>, records: Seq<ProjectionView>, task: Seq<char>, own: Tree) -> Tree {
    let uncertain = any_status(ops, task, "unknown"@);
    let running = any_status(ops, task, "running"@);
    if !from_records(records, task) {
        if uncertain {
            Tree::Text("unknown"@)
        } else if running {
            Tree::Text("running"@)
        } else {
            own
        }
    } else if uncertain || any_state(records, task, 0) {
        Tree::Text("unknown"@)
    } else if running || any_state(records, task, 1) {
        Tree::Text("running"@)
    } else if any_state(records, task, 2) {
        Tree::Text("blocked"@)
    } else if any_state(records, task, 3) {
        Tree::Text("waiting_human"@)
    } else if !any_state(records, task, 4) {
        Tree::Text("completed"@)
    } else {
        Tree::Text("canceled"@)
    }
}

/// A text is shown up to its bound; anything else as it is.
pub open spec fn shown(t: Tree) -> Tree {
    match t {
        Tree::Text(_) => bounded_tree(t),
        _ => t,
    }
}

pub open spec fn own_status(o: ReceiptView) -> Tree {
    if o.status == "unknown"@ {
        Tree::Text("unknown"@)
    } else {
        match o.result {
            Some(v) => match member(v, "status"@) {
                Some(s) => s,
                None => Tree::Text(o.status),
            },
            None => Tree::Text(o.status),
        }
    }
}

pub open spec fn execution_of(o: ReceiptView) -> Tree {
    match o.result {
        Some(v) => value_in(v, "execution_context"@),
        None => Tree::Null,
    }
}

pub open spec fn text_or(t: Option<Seq<char>>) -> Tree {
    match t {
        Some(s) => Tree::Text(s),
        None => Tree::Null,
    }
}

pub const WORKFLOW: &'static str = "受限修复流程";

pub const RECORDED: &'static str = "持久审批记录中的修复任务";

/// What is known of a task; `target` is the configured one.
pub open spec fn summary_of(
    ops: Seq<ReceiptView>,
    records: Seq<ProjectionView>,
    task: Seq<char>,
    target: Option<Seq<char>>,
) -> SummaryView {
    match latest(ops, task, false) {
        Some(o) => SummaryView {
            id: clipped(task, MAX_SHOWN as nat),
            target: shown(
                match member(o.context, "target"@) {
                    Some(t) => t,
                    None => text_or(target),
                },
            ),
            status: shown(repair_status(ops, records, task, own_status(o))),
            summary: WORKFLOW@,
            operation_count: counted(records, task),
            updated_at: touched(records, task, o.updated_at),
            harness_id: shown(value_in(execution_of(o), "harness_id"@)),
            thread_id: shown(value_in(execution_of(o), "thread_id"@)),
            session_id: shown(value_in(execution_of(o), "session_id"@)),
            source_incident: shown(value_in(o.context, "sourceIncident"@)),
        },
        None => SummaryView {
            id: clipped(task, MAX_SHOWN as nat),
            target: shown(
                match first_record(records, task) {
                    Some(r) => r.target,
                    None => Tree::Null,
                },
            ),
            status: shown(repair_status(ops, records, task, Tree::Text("blocked"@))),
            summary: RECORDED@,
            operation_count: counted(records, task),
            updated_at: touched(records, task, 0),
            harness_id: Tree::Null,
            thread_id: Tree::Null,
            session_id: Tree::Null,
            source_incident: Tree::Null,
        },
    }
}

fn show(value: Json) -> (r: Json)
    ensures
        r@ == shown(value@),
{
    match value {
        Json::Text(_) => bounded(&value),
        _ => value,
    }
}

fn newest<'a>(records: &'a Table<Operation>, task: &str, named: bool) -> (r: Option<&'a Operation>)
    ensures
        latest(receipts_in(records.listed()), task@, named) == (match r {
            Some(o) => Some(o@),
            None => None,
        }),
{
    let ghost all = receipts_in(records.listed());
    let mut best: Option<&'a Operation> = None;
    let mut i: usize = 0;
    assert(all.subrange(0, 0) =~= Seq::<ReceiptView>::empty());
    while i < records.len()
        invariant
            i <= all.len(),
            all == receipts_in(records.listed()),
            latest(all.subrange(0, i as int), task@, named) == (match best {
                Some(o) => Some(o@),
                None => None,
            }),
        decreases all.len() - i,
    {
        let o = records.value(i);
        proof {
            let now = all.subrange(0, i + 1);
            assert(now.drop_last() =~= all.subrange(0, i as int));
            assert(now.last() == o@);
        }
        let own = if same(&o.kind, "repair") {
            match text_under(&o.context, "taskId") {
                Some(t) => same(t, task),
                None => !named && same(&o.id, task),
            }
        } else {
            false
        };
        if own {
            let take = match best {
                None => true,
                Some(b) => !(b.updated_at > o.updated_at || (b.updated_at == o.updated_at && before(&o.id, &b.id))),
            };
            if take {
                best = Some(o);
            }
        }
        i = i + 1;
    }
    assert(all.subrange(0, i as int) =~= all);
    best
}

fn has_status(records: &Table<Operation>, task: &str, status: &str) -> (r: bool)
    ensures
        r == any_status(receipts_in(records.listed()), task@, status@),
{
    let ghost all = receipts_in(records.listed());
    let mut i: usize = 0;
    while i < records.len()
        invariant
            i <= all.len(),
            all == receipts_in(records.listed()),
            forall|j: int| 0 <= j < i ==> !(names_task(#[trigger] all[j], task@) && all[j].status == status@),
        decreases all.len() - i,
    {
        let o = records.value(i);
        assert(all[i as int] == o@);
        if same(&o.kind, "repair") && same(&o.status, status) {
            if let Some(t) = text_under(&o.context, "taskId") {
                if same(t, task) {
                    assert(names_task(all[i as int], task@));
                    return true;
                }
            }
        }
        i = i + 1;
    }
    false
}

fn group_of(s: ApprovalState, group: u8) -> (r: bool)
    ensures
        r == in_group(s, group as int),
{
    match group {
        0 => s == ApprovalState::Unknown,
        1 => s == ApprovalState::Executing,
        2 => s == ApprovalState::Denied || s == ApprovalState::Revoked || s == ApprovalState::Expired || s
            == ApprovalState::Failed,
        3 => s == ApprovalState::Pending || s == ApprovalState::WaitingHuman || s == ApprovalState::Approved,
        4 => s != ApprovalState::Executed,
        _ => true,
    }
}

fn has_state(records: &Vec<ApprovalProjection>, task: &str, group: u8) -> (r: bool)
    ensures
        r == any_state(projections(records@), task@, group as int),
{
    let ghost all = projections(records@);
    let mut i: usize = 0;
    while i < records.len()
        invariant
            i <= records.len(),
            all == projections(records@),
            forall|j: int| 0 <= j < i ==> !((#[trigger] all[j]).task_id == task@ && in_group(all[j].state, group as int)),
        decreases records.len() - i,
    {
        assert(all[i as int] == records@[i as int]@);
        if same(&records[i].task_id, task) && group_of(records[i].state, group) {
            return true;
        }
        i = i + 1;
    }
    false
}

fn status(operations: &Table<Operation>, records: &Vec<ApprovalProjection>, task: &str, own: Json) -> (r: Json)
    ensures
        r@ == repair_status(receipts_in(operations.listed()), projections(records@), task@, own@),
{
    let uncertain = has_status(operations, task, "unknown");
    let running = has_status(operations, task, "running");
    proof {
        let all = projections(records@);
        if from_records(all, task@) {
            let i = choose|i: int| 0 <= i < all.len() && (#[trigger] all[i]).task_id == task@;
            assert(in_group(all[i].state, 5));
            assert(any_state(all, task@, 5));
        }
    }
    if !has_state(records, task, 5) {
        if uncertain {
            text_value("unknown")
        } else if running {
            text_value("running")
        } else {
            own
        }
    } else if uncertain || has_state(records, task, 0) {
        text_value("unknown")
    } else if running || has_state(records, task, 1) {
        text_value("running")
    } else if has_state(records, task, 2) {
        text_value("blocked")
    } else if has_state(records, task, 3) {
        text_value("waiting_human")
    } else if !has_state(records, task, 4) {
        text_value("completed")
    } else {
        text_value("canceled")
    }
}

/// The number of a task's approvals, its last change and its first target.
fn gather(records: &Vec<ApprovalProjection>, task: &str, base: u64) -> (r: (u64, u64, Json))
    ensures
        r.0 == counted(projections(records@), task@),
        r.1 == touched(projections(records@), task@, base),
        r.2@ == (match first_record(projections(records@), task@) {
            Some(p) => p.target,
            None => Tree::Null,
        }),
{
    let ghost all = projections(records@);
    let mut count: u64 = 0;
    let mut at: u64 = base;
    let mut target: Option<Json> = None;
    let mut i: usize = 0;
    assert(all.subrange(0, 0) =~= Seq::<ProjectionView>::empty());
    while i < records.len()
        invariant
            i <= records.len(),
            all == projections(records@),
            count <= i,
            count == counted(all.subrange(0, i as int), task@),
            at == touched(all.subrange(0, i as int), task@, base),
            match (target, first_record(all.subrange(0, i as int), task@)) {
                (Some(t), Some(p)) => t@ == p.target,
                (None, None) => true,
                _ => false,
            },
        decreases records.len() - i,
    {
        let p = &records[i];
        proof {
            let now = all.subrange(0, i + 1);
            assert(now.drop_last() =~= all.subrange(0, i as int));
            assert(now.last() == p@);
        }
        if same(&p.task_id, task) {
            count = count + 1;
            let m = millis(p.updated_at);
            if at < m {
                at = m;
            }
            if target.is_none() {
                target = Some(p.target.copy());
            }
        }
        i = i + 1;
    }
    assert(all.subrange(0, i as int) =~= all);
    (
        count,
        at,
        match target {
            Some(t) => t,
            None => Json::Null,
        },
    )
}

/// What is known of one task.
pub fn summarize(
    operations: &Table<Operation>,
    records: &Vec<ApprovalProjection>,
    task: &str,
    target: &Option<String>,
) -> (r: RepairSummary)
    ensures
        r@ == summary_of(receipts_in(operations.listed()), projections(records@), task@, crate::text::opt(*target)),
{
    match newest(operations, task, false) {
        Some(o) => {
            let own = if same(&o.status, "unknown") {
                text_value("unknown")
            } else {
                match &o.result {
                    Some(v) => match v.get("status") {
                        Some(s) => s.copy(),
                        None => text_value(&o.status),
                    },
                    None => text_value(&o.status),
                }
            };
            let execution = match &o.result {
                Some(v) => value_under(v, "execution_context"),
                None => Json::Null,
            };
            let aim = match o.context.get("target") {
                Some(t) => t.copy(),
                None => match target {
                    Some(t) => text_value(t),
                    None => Json::Null,
                },
            };
            let (count, at, _) = gather(records, task, o.updated_at);
            RepairSummary {
                id: clip(task, MAX_SHOWN),
                target: show(aim),
                status: show(status(operations, records, task, own)),
                summary: copied(WORKFLOW),
                operation_count: count,
                updated_at: at,
                harness_id: show(value_under(&execution, "harness_id")),
                thread_id: show(value_under(&execution, "thread_id")),
                session_id: show(value_under(&execution, "session_id")),
                source_incident: show(value_under(&o.context, "sourceIncident")),
            }
        },
        None => {
            let (count, at, aim) = gather(records, task, 0);
            RepairSummary {
                id: clip(task, MAX_SHOWN),
                target: show(aim),
                status: show(status(operations, records, task, text_value("blocked"))),
                summary: copied(RECORDED),
                operation_count: count,
                updated_at: at,
                harness_id: Json::Null,
                thread_id: Json::Null,
                session_id: Json::Null,
                source_incident: Json::Null,
            }
        },
    }
}

/// Summaries of these tasks, in their order.
pub open spec fn summarizes(
    r: Seq<RepairSummary>,
    ids: Seq<Seq<char>>,
    ops: Seq<ReceiptView>,
    records: Seq<ProjectionView>,
    target: Option<Seq<char>>,
) -> bool {
    &&& r.len() == ids.len()
    &&& forall|i: int| 0 <= i < ids.len() ==> (#[trigger] r[i])@ == summary_of(ops, records, ids[i], target)
}

/// Summarizes every task that anything is known of, each once.
pub fn repair_summaries(operations: &Table<Operation>, records: &Vec<ApprovalProjection>, target: &Option<String>) -> (r: Vec<
    RepairSummary,
>)
    requires
        operations.wf(),
    ensures
        exists|ids: Seq<Seq<char>>|
            lists(ids, tasks(receipts_in(operations.listed()), projections(records@))) && #[trigger] summarizes(
                r@,
                ids,
                receipts_in(operations.listed()),
                projections(records@),
                crate::text::opt(*target),
            ),
{
    let ghost ops = receipts_in(operations.listed());
    let ghost all = projections(records@);
    let mut found: Table<bool> = Table::new();
    let mut i: usize = 0;
    while i < operations.len()
        invariant
            i <= ops.len(),
            ops == receipts_in(operations.listed()),
            found.wf(),
            forall|t: Seq<char>| #[trigger]
                found@.contains_key(t) <==> exists|j: int| 0 <= j < i && is_repair(#[trigger] ops[j]) && task_key(ops[j]) == t,
        decreases ops.len() - i,
    {
        let o = operations.value(i);
        assert(ops[i as int] == o@);
        if same(&o.kind, "repair") {
            let task = match text_under(&o.context, "taskId") {
                Some(t) => copied(t),
                None => o.id.clone(),
            };
            assert(is_repair(ops[i as int]) && task_key(ops[i as int]) == task@);
            found.insert(task, true);
        }
        i = i + 1;
    }
    let mut i: usize = 0;
    while i < records.len()
        invariant
            i <= records.len(),
            ops == receipts_in(operations.listed()),
            all == projections(records@),
            found.wf(),
            forall|t: Seq<char>| #[trigger]
                found@.contains_key(t) <==> from_receipts(ops, t) || exists|j: int|
                    0 <= j < i && (#[trigger] all[j]).task_id == t,
        decreases records.len() - i,
    {
        assert(all[i as int] == records@[i as int]@);
        found.insert(records[i].task_id.clone(), true);
        i = i + 1;
    }
    let ghost ids = found.listed().map_values(|e: (String, bool)| e.0@);
    let mut r: Vec<RepairSummary> = Vec::new();
    let mut i: usize = 0;
    while i < found.len()
        invariant
            i <= found.listed().len(),
            ids == found.listed().map_values(|e: (String, bool)| e.0@),
            ops == receipts_in(operations.listed()),
            all == projections(records@),
            r.len() == i,
            forall|j: int| 0 <= j < i ==> (#[trigger] r@[j])@ == summary_of(ops, all, ids[j], crate::text::opt(*target)),
        decreases found.listed().len() - i,
    {
        let key = found.key(i);
        assert(ids[i as int] == key@);
        r.push(summarize(operations, records, key, target));
        i = i + 1;
    }
    proof {
        let set = tasks(ops, all);
        assert forall|k: Seq<char>| #[trigger] ids.contains(k) <==> set.contains(k) by {
            if ids.contains(k) {
                let j = choose|j: int| 0 <= j < ids.len() && ids[j] == k;
                found.entry_at(j);
                assert(found@.contains_key(k));
            }
            if set.contains(k) {
                assert(found@.contains_key(k));
                let j = found.entry_of(k);
                assert(ids[j] == k);
            }
        }
        assert forall|a: int, b: int| 0 <= a < b < ids.len() implies less(#[trigger] ids[a], #[trigger] ids[b]) by {
            assert(less(found.listed()[a].0@, found.listed()[b].0@));
        }
        assert(lists(ids, set));
        assert(summarizes(r@, ids, ops, all, crate::text::opt(*target)));
    }
    r
}

/// What the last workflow of a task answered.
pub open spec fn final_response(ops: Seq<ReceiptView>, task: Seq<char>) -> Tree {
    match latest(ops, task, true) {
        Some(o) => match o.result {
            Some(v) => value_in(v, "final_response"@),
            None => Tree::Null,
        },
        None => Tree::Null,
    }
}

pub fn response(operations: &Table<Operation>, task: &str) -> (r: Json)
    ensures
        r@ == final_response(receipts_in(operations.listed()), task@),
{
    match newest(operations, task, true) {
        Some(o) => match &o.result {
            Some(v) => value_under(v, "final_response"),
            None => Json::Null,
        },
        None => Json::Null,
    }
}

/// Whether a repair was started from an incident.
pub open spec fn started_from(o: ReceiptView, incident: Seq<char>) -> bool {
    is_repair(o) && text_in(value_in(o.context, "sourceIncident"@), "id"@) == Some(incident)
}

pub open spec fn starts(ops: Seq<ReceiptView>, incident: Seq<char>, task: Seq<char>) -> bool {
    exists|i: int|
        0 <= i < ops.len() && started_from(#[trigger] ops[i], incident) && text_in(ops[i].context, "taskId"@) == Some(task)
}

/// The tasks that were started from an incident.
pub fn incident_tasks(operations: &Table<Operation>, incident: &str) -> (r: Vec<String>)
    ensures
        forall|t: Seq<char>| #[trigger]
            crate::text::texts(r@).contains(t) <==> starts(receipts_in(operations.listed()), incident@, t),
{
    let ghost ops = receipts_in(operations.listed());
    let mut r: Vec<String> = Vec::new();
    let mut i: usize = 0;
    while i < operations.len()
        invariant
            i <= ops.len(),
            ops == receipts_in(operations.listed()),
            forall|t: Seq<char>| #[trigger]
                crate::text::texts(r@).contains(t) <==> exists|j: int|
                    0 <= j < i && started_from(#[trigger] ops[j], incident@) && text_in(ops[j].context, "taskId"@) == Some(t),
        decreases ops.len() - i,
    {
        let o = operations.value(i);
        assert(ops[i as int] == o@);
        let source = value_under(&o.context, "sourceIncident");
        let own = same(&o.kind, "repair") && match text_under(&source, "id") {
            Some(id) => same(id, incident),
            None => false,
        };
        let ghost before = crate::text::texts(r@);
        assert(own == started_from(ops[i as int], incident@));
        if own {
            if let Some(t) = text_under(&o.context, "taskId") {
                r.push(copied(t));
                proof {
                    let now = crate::text::texts(r@);
                    assert(now =~= before.push(t@));
                    assert forall|x: Seq<char>| #[trigger] now.contains(x) <==> before.contains(x) || x == t@ by {
                        if before.contains(x) {
                            let k = choose|k: int| 0 <= k < before.len() && before[k] == x;
                            assert(now[k] == x);
                        }
                        assert(now[before.len() as int] == t@);
                    }
                }
            }
        }
        i = i + 1;
    }
    r
}

} // verus!
