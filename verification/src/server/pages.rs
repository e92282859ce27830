//! The documents that the console answers with, put together from their parts.
use super::history::{
    approval_summary, approval_tree, operation_summary, operation_tree, simulation_summary, simulation_tree,
};
use super::journal::Operation;
use super::paging::{metadata, metadata_tree, page, paged, value_in, value_under, ListQuery};
use super::requests::simulation_status;
use super::views::{capability, capability_tree};
use super::{ApiError, Refusal};
use crate::json::values::{empty_object, object, opt_json, text_or_null, text_value, texts_json, texts_tree, with};
use crate::json::{fields_of, group_json, trees, with_member, Json, Tree};
use crate::recovery::approval::ApprovalRecord;
use crate::recovery::engine::TaskState;
use crate::table::Table;
use crate::text::{copied, opt, same, texts};
use vstd::prelude::*;

verus! {

broadcast use group_json;

// Lists.

pub open spec fn approval_items(records: Seq<ApprovalRecord>) -> Seq<Tree> {
    Seq::new(records.len(), |i: int| approval_tree(records[i]@))
}

/// A page of approvals.
pub fn approval_page(records: &Vec<ApprovalRecord>, query: &ListQuery) -> (r: Result<Json, ApiError>)
    ensures
        match r {
            Ok(v) => paged(approval_items(records@), "requestId"@, query@) == Ok::<Tree, Refusal>(v@),
            Err(e) => paged(approval_items(records@), "requestId"@, query@) == Err::<Tree, Refusal>(e@),
        },
{
    let mut items: Vec<Json> = Vec::new();
    let mut i: usize = 0;
    while i < records.len()
        invariant
            i <= records.len(),
            items.len() == i,
            forall|j: int| 0 <= j < i ==> (#[trigger] items@[j])@ == approval_tree(records@[j]@),
        decreases records.len() - i,
    {
        items.push(approval_summary(&records[i]));
        i = i + 1;
    }
    assert(trees(items@) =~= approval_items(records@));
    page(items, "requestId", query)
}

pub open spec fn operation_items(entries: Seq<(String, Operation)>) -> Seq<Tree> {
    Seq::new(entries.len(), |i: int| operation_tree(entries[i].1@))
}

/// A page of operations.
pub fn operation_page(operations: &Table<Operation>, query: &ListQuery) -> (r: Result<Json, ApiError>)
    ensures
        match r {
            Ok(v) => paged(operation_items(operations.listed()), "id"@, query@) == Ok::<Tree, Refusal>(v@),
            Err(e) => paged(operation_items(operations.listed()), "id"@, query@) == Err::<Tree, Refusal>(e@),
        },
{
    let mut items: Vec<Json> = Vec::new();
    let mut i: usize = 0;
    let n = operations.len();
    while i < n
        invariant
            i <= n,
            n == operations.listed().len(),
            items.len() == i,
            forall|j: int| 0 <= j < i ==> (#[trigger] items@[j])@ == operation_tree(operations.listed()[j].1@),
        decreases n - i,
    {
        items.push(operation_summary(operations.value(i)));
        i = i + 1;
    }
    assert(trees(items@) =~= operation_items(operations.listed()));
    page(items, "id", query)
}

/// The simulations among the operations.
pub open spec fn simulation_items(entries: Seq<(String, Operation)>) -> Seq<Tree>
    decreases entries.len(),
{
    if entries.len() == 0 {
        Seq::empty()
    } else {
        let front = simulation_items(entries.drop_last());
        let last = entries.last().1@;
        if last.kind == "simulation"@ { front.push(simulation_tree(last)) } else { front }
    }
}

/// A page of simulations.
pub fn simulation_page(operations: &Table<Operation>, query: &ListQuery) -> (r: Result<Json, ApiError>)
    ensures
        match r {
            Ok(v) => paged(simulation_items(operations.listed()), "id"@, query@) == Ok::<Tree, Refusal>(v@),
            Err(e) => paged(simulation_items(operations.listed()), "id"@, query@) == Err::<Tree, Refusal>(e@),
        },
{
    let ghost all = operations.listed();
    let mut items: Vec<Json> = Vec::new();
    let mut i: usize = 0;
    let n = operations.len();
    assert(all.subrange(0, 0) =~= Seq::<(String, Operation)>::empty());
    assert(trees(items@) =~= Seq::<Tree>::empty());
    while i < n
        invariant
            i <= n,
            all == operations.listed(),
            n == all.len(),
            trees(items@) == simulation_items(all.subrange(0, i as int)),
        decreases n - i,
    {
        let ghost had = trees(items@);
        proof {
            let now = all.subrange(0, i + 1);
            assert(now.drop_last() =~= all.subrange(0, i as int));
            assert(now.last() == all[i as int]);
        }
        let o = operations.value(i);
        if same(&o.kind, "simulation") {
            items.push(simulation_summary(o));
            assert(trees(items@) =~= had.push(simulation_tree(o@)));
        }
        i = i + 1;
    }
    assert(all.subrange(0, i as int) =~= all);
    page(items, "id", query)
}

// Capabilities.

pub open spec fn capability_items(monitoring: bool, harness: bool, repair: bool, connected: bool) -> Seq<Tree> {
    seq![
        capability_tree(
            "monitoring"@,
            "监控与故障"@,
            monitoring,
            seq!["monitor.read"@, "incident.read"@, "incident.acknowledge"@],
            "规则判定、观测覆盖与持久故障；确认收到不解除故障，不自动执行修复。"@,
        ),
        capability_tree(
            "harness"@,
            "Harness 会话"@,
            harness,
            seq!["harness.run"@, "harness.projects"@],
            "提供方登录状态按调用结果确认，客户端归组另行核验。"@,
        ),
        capability_tree(
            "text-repair"@,
            "审批与文本修复"@,
            repair,
            seq!["repair.run"@, "approval.decide"@, "approval.apply"@, "approval.reconcile"@],
            "真实动作仅为 Windows 白名单文本替换；读回一致不等于业务恢复。"@,
        ),
        capability_tree(
            "simulation"@,
            "模拟实验室"@,
            true,
            seq!["simulation.run"@],
            "封闭模拟，不调用真实目标。"@,
        ),
        capability_tree(
            "logs"@,
            "运行记录"@,
            true,
            seq!["logs.read"@],
            "宿主持久操作记录与按可信配置绑定的观测记录；记录原文范围由只读提供方决定。"@,
        ),
        capability_tree(
            "external-plugins"@,
            "外部节点与契约插件"@,
            connected,
            seq!["extension.read"@],
            "只允许已登记的契约与方法；新领域写动作不因注册而获权。"@,
        ),
    ]
}

fn owned(words: &[&str]) -> (r: Vec<String>)
    ensures
        texts(r@) == Seq::new(words@.len(), |i: int| words@[i]@),
{
    let mut list: Vec<String> = Vec::new();
    let mut i: usize = 0;
    while i < words.len()
        invariant
            i <= words.len(),
            list.len() == i,
            forall|j: int| 0 <= j < i ==> (#[trigger] list@[j])@ == words@[j]@,
        decreases words.len() - i,
    {
        list.push(copied(words[i]));
        i = i + 1;
    }
    assert(texts(list@) =~= Seq::new(words@.len(), |i: int| words@[i]@));
    list
}

/// What the host can do: `connected` says whether any extension is available.
pub fn capabilities(monitoring: bool, harness: bool, repair: bool, connected: bool) -> (r: Vec<Json>)
    ensures
        trees(r@) == capability_items(monitoring, harness, repair, connected),
{
    let watching = owned(&["monitor.read", "incident.read", "incident.acknowledge"]);
    assert(texts(watching@) =~= seq!["monitor.read"@, "incident.read"@, "incident.acknowledge"@]);
    let talking = owned(&["harness.run", "harness.projects"]);
    assert(texts(talking@) =~= seq!["harness.run"@, "harness.projects"@]);
    let repairing = owned(&["repair.run", "approval.decide", "approval.apply", "approval.reconcile"]);
    assert(texts(repairing@) =~= seq!["repair.run"@, "approval.decide"@, "approval.apply"@, "approval.reconcile"@]);
    let simulating = owned(&["simulation.run"]);
    assert(texts(simulating@) =~= seq!["simulation.run"@]);
    let reading = owned(&["logs.read"]);
    assert(texts(reading@) =~= seq!["logs.read"@]);
    let asking = owned(&["extension.read"]);
    assert(texts(asking@) =~= seq!["extension.read"@]);
    let mut list: Vec<Json> = Vec::new();
    list.push(
        capability(
            "monitoring",
            "监控与故障",
            monitoring,
            &watching,
            "规则判定、观测覆盖与持久故障；确认收到不解除故障，不自动执行修复。",
        ),
    );
    list.push(
        capability("harness", "Harness 会话", harness, &talking, "提供方登录状态按调用结果确认，客户端归组另行核验。"),
    );
    list.push(
        capability(
            "text-repair",
            "审批与文本修复",
            repair,
            &repairing,
            "真实动作仅为 Windows 白名单文本替换；读回一致不等于业务恢复。",
        ),
    );
    list.push(capability("simulation", "模拟实验室", true, &simulating, "封闭模拟，不调用真实目标。"));
    list.push(
        capability(
            "logs",
            "运行记录",
            true,
            &reading,
            "宿主持久操作记录与按可信配置绑定的观测记录；记录原文范围由只读提供方决定。",
        ),
    );
    list.push(
        capability(
            "external-plugins",
            "外部节点与契约插件",
            connected,
            &asking,
            "只允许已登记的契约与方法；新领域写动作不因注册而获权。",
        ),
    );
    assert(trees(list@) =~= capability_items(monitoring, harness, repair, connected));
    list
}

// Monitoring.

pub open spec fn without_field(fields: Seq<(Seq<char>, Tree)>, key: Seq<char>) -> Seq<(Seq<char>, Tree)>
    decreases fields.len(),
{
    if fields.len() == 0 {
        Seq::empty()
    } else {
        let front = without_field(fields.drop_last(), key);
        if fields.last().0 == key { front } else { front.push(fields.last()) }
    }
}

/// A monitor as lists show it: the last observed value is left out.
pub open spec fn listed_monitor_tree(view: Tree) -> Tree {
    match view {
        Tree::Object(fields) => with_member(
            Tree::Object(without_field(fields, "last_value"@)),
            "detail"@,
            Tree::Bool(false),
        ),
        _ => view,
    }
}

pub fn listed_monitor(view: Json) -> (r: Json)
    ensures
        r@ == listed_monitor_tree(view@),
{
    match view {
        Json::Object(fields) => {
            let ghost all = fields_of(fields@);
            let mut kept: Vec<(String, Json)> = Vec::new();
            let mut i: usize = 0;
            assert(all.subrange(0, 0) =~= Seq::<(Seq<char>, Tree)>::empty());
            assert(fields_of(kept@) =~= Seq::<(Seq<char>, Tree)>::empty());
            while i < fields.len()
                invariant
                    i <= fields.len(),
                    all == fields_of(fields@),
                    all.len() == fields.len(),
                    fields_of(kept@) == without_field(all.subrange(0, i as int), "last_value"@),
                decreases fields.len() - i,
            {
                let ghost had = fields_of(kept@);
                proof {
                    let now = all.subrange(0, i + 1);
                    assert(now.drop_last() =~= all.subrange(0, i as int));
                    assert(now.last() == all[i as int]);
                    assert(all[i as int] == (fields@[i as int].0@, fields@[i as int].1@));
                }
                if !same(&fields[i].0, "last_value") {
                    kept.push((fields[i].0.clone(), fields[i].1.copy()));
                    assert(fields_of(kept@) =~= had.push(all[i as int]));
                }
                i = i + 1;
            }
            assert(all.subrange(0, i as int) =~= all);
            with(Json::Object(kept), "detail", Json::Bool(false))
        },
        other => other,
    }
}

/// Monitoring where none is configured.
pub open spec fn unwatched_tree(plugins: Seq<Tree>, counts: Tree) -> Tree {
    let a = with_member(empty_object(), "configured"@, Tree::Bool(false));
    let b = with_member(a, "monitors"@, Tree::Array(Seq::empty()));
    let c = with_member(b, "discoveries"@, Tree::Array(Seq::empty()));
    let d = with_member(c, "plugins"@, Tree::Array(plugins));
    let e = with_member(d, "runtime_error"@, Tree::Null);
    with_member(e, "counts"@, counts)
}

fn no_items() -> (r: Json)
    ensures
        r@ == Tree::Array(Seq::empty()),
{
    let list: Vec<Json> = Vec::new();
    assert(trees(list@) =~= Seq::<Tree>::empty());
    Json::Array(list)
}

pub fn unwatched(plugins: Vec<Json>, counts: Json) -> (r: Json)
    ensures
        r@ == unwatched_tree(trees(plugins@), counts@),
{
    let a = with(object(), "configured", Json::Bool(false));
    let b = with(a, "monitors", no_items());
    let c = with(b, "discoveries", no_items());
    let d = with(c, "plugins", Json::Array(plugins));
    let e = with(d, "runtime_error", Json::Null);
    with(e, "counts", counts)
}

/// All of monitoring at one moment.
pub open spec fn watched_tree(
    monitors: Seq<Tree>,
    discoveries: Seq<Tree>,
    plugins: Seq<Tree>,
    runtime_error: Option<Seq<char>>,
    running: bool,
    counts: Tree,
) -> Tree {
    let a = with_member(empty_object(), "configured"@, Tree::Bool(true));
    let b = with_member(a, "monitors"@, Tree::Array(monitors));
    let c = with_member(b, "discoveries"@, Tree::Array(discoveries));
    let d = with_member(c, "plugins"@, Tree::Array(plugins));
    let e = with_member(d, "runtime_error"@, text_or_null(runtime_error));
    let f = with_member(e, "running"@, Tree::Bool(running));
    with_member(f, "counts"@, counts)
}

pub fn watched(
    monitors: Vec<Json>,
    discoveries: Vec<Json>,
    plugins: Vec<Json>,
    runtime_error: &Option<String>,
    running: bool,
    counts: Json,
) -> (r: Json)
    ensures
        r@ == watched_tree(
            trees(monitors@),
            trees(discoveries@),
            trees(plugins@),
            opt(*runtime_error),
            running,
            counts@,
        ),
{
    let a = with(object(), "configured", Json::Bool(true));
    let b = with(a, "monitors", Json::Array(monitors));
    let c = with(b, "discoveries", Json::Array(discoveries));
    let d = with(c, "plugins", Json::Array(plugins));
    let e = with(d, "runtime_error", opt_json(runtime_error));
    let f = with(e, "running", Json::Bool(running));
    with(f, "counts", counts)
}

/// The answer to a request for the monitors, out of all of monitoring.
pub open spec fn monitor_list_tree(overview: Tree) -> Tree {
    let a = with_member(empty_object(), "configured"@, value_in(overview, "configured"@));
    let b = with_member(a, "items"@, value_in(overview, "monitors"@));
    let c = with_member(b, "discoveries"@, value_in(overview, "discoveries"@));
    let d = with_member(c, "plugins"@, value_in(overview, "plugins"@));
    let e = with_member(d, "runtime_error"@, value_in(overview, "runtime_error"@));
    let f = with_member(e, "running"@, value_in(overview, "running"@));
    with_member(f, "counts"@, value_in(overview, "counts"@))
}

pub fn monitor_list(overview: &Json) -> (r: Json)
    ensures
        r@ == monitor_list_tree(overview@),
{
    let a = with(object(), "configured", value_under(overview, "configured"));
    let b = with(a, "items", value_under(overview, "monitors"));
    let c = with(b, "discoveries", value_under(overview, "discoveries"));
    let d = with(c, "plugins", value_under(overview, "plugins"));
    let e = with(d, "runtime_error", value_under(overview, "runtime_error"));
    let f = with(e, "running", value_under(overview, "running"));
    with(f, "counts", value_under(overview, "counts"))
}

/// A plugin with what it shows and what it watches.
pub open spec fn plugin_tree(
    plugin: Tree,
    status: Seq<char>,
    error: Option<Seq<char>>,
    view: Tree,
    monitors: Seq<Tree>,
    discoveries: Seq<Tree>,
    now: u64,
) -> Tree {
    let a = with_member(empty_object(), "plugin"@, plugin);
    let b = with_member(a, "view_status"@, Tree::Text(status));
    let c = with_member(b, "view_error"@, text_or_null(error));
    let d = with_member(c, "view"@, view);
    let e = with_member(d, "monitors"@, Tree::Array(monitors));
    let f = with_member(e, "discoveries"@, Tree::Array(discoveries));
    let g = with_member(f, "read_at"@, Tree::Unsigned(now));
    with_member(g, "auto_retry"@, Tree::Bool(false))
}

pub fn plugin_page(
    plugin: Json,
    status: &str,
    error: &Option<String>,
    view: Json,
    monitors: Vec<Json>,
    discoveries: Vec<Json>,
    now: u64,
) -> (r: Json)
    ensures
        r@ == plugin_tree(plugin@, status@, opt(*error), view@, trees(monitors@), trees(discoveries@), now),
{
    let a = with(object(), "plugin", plugin);
    let b = with(a, "view_status", text_value(status));
    let c = with(b, "view_error", opt_json(error));
    let d = with(c, "view", view);
    let e = with(d, "monitors", Json::Array(monitors));
    let f = with(e, "discoveries", Json::Array(discoveries));
    let g = with(f, "read_at", Json::Unsigned(now));
    with(g, "auto_retry", Json::Bool(false))
}

// Answers to single calls.

pub open spec fn projects_tree(projects: Seq<Tree>, workspace: Seq<char>) -> Tree {
    let a = with_member(empty_object(), "projects"@, Tree::Array(projects));
    with_member(a, "workspace_id"@, Tree::Text(workspace))
}

/// The projects of a workspace.
pub fn projects_page(projects: Vec<Json>, workspace: &str) -> (r: Json)
    ensures
        r@ == projects_tree(trees(projects@), workspace@),
{
    let a = with(object(), "projects", Json::Array(projects));
    with(a, "workspace_id", text_value(workspace))
}

pub open spec fn queried_tree(result: Tree) -> Tree {
    with_member(with_member(empty_object(), "result"@, result), "auto_retry"@, Tree::Bool(false))
}

/// What an extension answered a query.
pub fn queried(result: Json) -> (r: Json)
    ensures
        r@ == queried_tree(result@),
{
    with(with(object(), "result", result), "auto_retry", Json::Bool(false))
}

/// How a simulated task came to its end.
pub open spec fn simulated_tree(state: TaskState, task: Tree) -> Tree {
    let status = match state {
        TaskState::Unknown => "unknown"@,
        TaskState::Canceled => "canceled"@,
        _ => "completed"@,
    };
    with_member(with_member(empty_object(), "status"@, Tree::Text(status)), "task"@, task)
}

pub fn simulated(state: TaskState, task: Json) -> (r: Json)
    ensures
        r@ == simulated_tree(state, task@),
{
    with(with(object(), "status", text_value(simulation_status(state))), "task", task)
}

// The first page.

/// The parts of the first page that are put in as they are.
pub struct Parts {
    pub capabilities: Vec<Json>,
    pub harnesses: Vec<Json>,
    /// The first pages of the histories.
    pub repairs: Json,
    pub approvals: Json,
    pub operations: Json,
    pub simulations: Json,
    /// The repair configuration in force.
    pub active: Json,
    pub extensions: Vec<Json>,
    pub monitoring: Json,
    pub approval_counts: Json,
}

pub open spec fn runtime_tree(operator: Seq<char>, permissions: Seq<Seq<char>>, now: u64) -> Tree {
    let a = with_member(empty_object(), "status"@, Tree::Text("connected"@));
    let b = with_member(a, "updatedAt"@, Tree::Unsigned(now));
    let c = with_member(b, "operator"@, Tree::Text(operator));
    with_member(c, "permissions"@, texts_tree(permissions))
}

pub open spec fn pages_tree(p: Parts) -> Tree {
    let a = with_member(empty_object(), "repairs"@, metadata_tree(p.repairs@));
    let b = with_member(a, "approvals"@, metadata_tree(p.approvals@));
    let c = with_member(b, "operations"@, metadata_tree(p.operations@));
    with_member(c, "simulation_tasks"@, metadata_tree(p.simulations@))
}

/// The first page: the items of each history beside where its page ends.
pub open spec fn bootstrap_tree(operator: Seq<char>, permissions: Seq<Seq<char>>, now: u64, p: Parts) -> Tree {
    let a = with_member(empty_object(), "schema_version"@, Tree::Unsigned(1));
    let b = with_member(a, "mode"@, Tree::Text("live"@));
    let c = with_member(b, "runtime"@, runtime_tree(operator, permissions, now));
    let d = with_member(c, "capabilities"@, Tree::Array(trees(p.capabilities@)));
    let e = with_member(d, "harnesses"@, Tree::Array(trees(p.harnesses@)));
    let f = with_member(e, "repairs"@, value_in(p.repairs@, "items"@));
    let g = with_member(f, "approvals"@, value_in(p.approvals@, "items"@));
    let h = with_member(g, "simulation_tasks"@, value_in(p.simulations@, "items"@));
    let i = with_member(h, "logs"@, Tree::Array(Seq::empty()));
    let j = with_member(i, "active_configuration"@, p.active@);
    let k = with_member(j, "operations"@, value_in(p.operations@, "items"@));
    let l = with_member(k, "extension_statuses"@, Tree::Array(trees(p.extensions@)));
    let m = with_member(l, "monitoring"@, p.monitoring@);
    let n = with_member(m, "pages"@, pages_tree(p));
    with_member(n, "approval_counts"@, p.approval_counts@)
}

pub fn bootstrap(operator: &str, permissions: &Vec<String>, now: u64, p: Parts) -> (r: Json)
    ensures
        r@ == bootstrap_tree(operator@, texts(permissions@), now, p),
{
    let a = with(object(), "status", text_value("connected"));
    let b = with(a, "updatedAt", Json::Unsigned(now));
    let c = with(b, "operator", text_value(operator));
    let runtime = with(c, "permissions", texts_json(permissions));
    let a = with(object(), "repairs", metadata(&p.repairs));
    let b = with(a, "approvals", metadata(&p.approvals));
    let c = with(b, "operations", metadata(&p.operations));
    let pages = with(c, "simulation_tasks", metadata(&p.simulations));
    let a = with(object(), "schema_version", Json::Unsigned(1));
    let b = with(a, "mode", text_value("live"));
    let c = with(b, "runtime", runtime);
    let d = with(c, "capabilities", Json::Array(p.capabilities));
    let e = with(d, "harnesses", Json::Array(p.harnesses));
    let f = with(e, "repairs", value_under(&p.repairs, "items"));
    let g = with(f, "approvals", value_under(&p.approvals, "items"));
    let h = with(g, "simulation_tasks", value_under(&p.simulations, "items"));
    let i = with(h, "logs", no_items());
    let j = with(i, "active_configuration", p.active);
    let k = with(j, "operations", value_under(&p.operations, "items"));
    let l = with(k, "extension_statuses", Json::Array(p.extensions));
    let m = with(l, "monitoring", p.monitoring);
    let n = with(m, "pages", pages);
    with(n, "approval_counts", p.approval_counts)
}

// What lists leave out.

proof fn without_field_at(fields: Seq<(Seq<char>, Tree)>, key: Seq<char>, i: int)
    requires
        0 <= i < without_field(fields, key).len(),
    ensures
        without_field(fields, key)[i].0 != key,
    decreases fields.len(),
{
    if fields.len() > 0 {
        let front = without_field(fields.drop_last(), key);
        if i < front.len() {
            without_field_at(fields.drop_last(), key, i);
        }
    }
}

proof fn field_of_none(fields: Seq<(Seq<char>, Tree)>, key: Seq<char>)
    requires
        forall|i: int| 0 <= i < fields.len() ==> (#[trigger] fields[i]).0 != key,
    ensures
        crate::json::field(fields, key) is None,
    decreases fields.len(),
{
    if fields.len() > 0 {
        assert(fields[0].0 != key);
        assert forall|i: int| 0 <= i < fields.drop_first().len() implies (#[trigger] fields.drop_first()[i]).0 != key by {
            assert(fields.drop_first()[i] == fields[i + 1]);
        }
        field_of_none(fields.drop_first(), key);
    }
}

/// A list of monitors tells no observed value, whatever was observed.
pub proof fn lists_tell_no_observed_value(view: Tree)
    ensures
        crate::json::member(listed_monitor_tree(view), "last_value"@) is None,
{
    if let Tree::Object(fields) = view {
        let kept = without_field(fields, "last_value"@);
        assert forall|i: int| 0 <= i < kept.len() implies (#[trigger] kept[i]).0 != "last_value"@ by {
            without_field_at(fields, "last_value"@, i);
        }
        field_of_none(kept, "last_value"@);
        crate::json::field_after_set(kept, "detail"@, Tree::Bool(false), "last_value"@);
        reveal_strlit("detail");
        reveal_strlit("last_value");
        assert("detail"@.len() != "last_value"@.len());
    }
}

} // verus!
