//! What the commands report and the codes they exit with.
use super::host::HostError;
use crate::harnesses::{
    definitions_of, found, DefinitionView, Fault, HarnessDefinition, HarnessError, HarnessRegistryConfig, CONFIG_SCHEMA_VERSION,
};
use crate::interfaces::views::{error_json, error_tree, paths_json, paths_tree};
use crate::json::values::{empty_object, object, opt_json, text_or_null, text_value, with};
use crate::json::{group_json, member, trees, with_member, Json, Tree};
use crate::paths::{locations_of, Location, LocationView};
use crate::recovery::approval::store::{appended, guarded, planned_change, plans, ApprovalStore, Step, StepView, StoreView};
use crate::recovery::approval::{
    ApprovalDecision, ApprovalError, ApprovalPolicy, ApprovalState, ChangeView, Fault as ApprovalFault, PolicyView,
    ReviewerConfig, ReviewerView,
};
use crate::recovery::workflow::{
    fault_message as workflow_message, human_change, invalid, ConfigView, RepairConfig, WorkflowError,
};
use crate::text::{copied, joined, opt, same};
use vstd::prelude::*;

verus! {

broadcast use group_json;

// Harness commands.

pub struct ConfigShape {
    pub schema_version: u32,
    pub default_harness: Option<Seq<char>>,
    pub harnesses: Seq<DefinitionView>,
}

pub open spec fn shape(c: HarnessRegistryConfig) -> ConfigShape {
    ConfigShape {
        schema_version: c.schema_version,
        default_harness: opt(c.default_harness),
        harnesses: definitions_of(c.harnesses@),
    }
}

/// The configuration of the one instance that a command works on.
pub open spec fn selected_config(c: ConfigShape, wanted: Option<Seq<char>>) -> Result<ConfigShape, Fault> {
    let id = match wanted {
        Some(id) => Some(id),
        None => c.default_harness,
    };
    match id {
        None => Err(Fault::NoDefaultHarness),
        Some(id) => match found(c.harnesses, id) {
            None => Err(Fault::UnknownHarness(id)),
            Some(d) => if !d.enabled {
                Err(Fault::HarnessDisabled(id))
            } else {
                Ok(ConfigShape { schema_version: c.schema_version, default_harness: Some(id), harnesses: seq![d] })
            },
        },
    }
}

fn find<'a>(list: &'a Vec<HarnessDefinition>, id: &str) -> (r: Option<&'a HarnessDefinition>)
    ensures
        match r {
            Some(d) => found(definitions_of(list@), id@) == Some(d@),
            None => found(definitions_of(list@), id@) is None,
        },
{
    let ghost all = definitions_of(list@);
    let mut i: usize = 0;
    assert(all.skip(0) =~= all);
    while i < list.len()
        invariant
            i <= list.len(),
            all == definitions_of(list@),
            found(all, id@) == found(all.skip(i as int), id@),
        decreases list.len() - i,
    {
        assert(all.skip(i as int)[0] == list@[i as int]@);
        if same(&list[i].id, id) {
            return Some(&list[i]);
        }
        assert(all.skip(i as int).drop_first() =~= all.skip(i + 1));
        i = i + 1;
    }
    assert(all.skip(i as int).len() == 0);
    None
}

/// Keeps only the instance that a command works on.
pub fn select_configuration(config: &HarnessRegistryConfig, wanted: Option<&str>) -> (r: Result<HarnessRegistryConfig, HarnessError>)
    ensures
        match r {
            Ok(c) => selected_config(shape(*config), crate::harnesses::registry::wanted(wanted)) == Ok::<ConfigShape, Fault>(
                shape(c),
            ),
            Err(e) => selected_config(shape(*config), crate::harnesses::registry::wanted(wanted)) == Err::<ConfigShape, Fault>(
                e@,
            ),
        },
{
    let id = match wanted {
        Some(id) => id,
        None => match &config.default_harness {
            Some(id) => id.as_str(),
            None => {
                return Err(HarnessError::NoDefaultHarness);
            },
        },
    };
    match find(&config.harnesses, id) {
        None => Err(HarnessError::UnknownHarness(copied(id))),
        Some(d) => if !d.enabled {
            Err(HarnessError::HarnessDisabled(copied(id)))
        } else {
            let mut harnesses: Vec<HarnessDefinition> = Vec::new();
            harnesses.push(d.clone());
            assert(definitions_of(harnesses@) =~= seq![d@]);
            Ok(
                HarnessRegistryConfig {
                    schema_version: config.schema_version,
                    default_harness: Some(copied(id)),
                    harnesses,
                },
            )
        },
    }
}

/// A configuration of one instance alone, the default if it is enabled.
pub fn single_configuration(definition: &HarnessDefinition) -> (r: HarnessRegistryConfig)
    ensures
        shape(r) == (ConfigShape {
            schema_version: CONFIG_SCHEMA_VERSION,
            default_harness: if definition@.enabled { Some(definition@.id) } else { None },
            harnesses: seq![definition@],
        }),
{
    let mut harnesses: Vec<HarnessDefinition> = Vec::new();
    harnesses.push(definition.clone());
    assert(definitions_of(harnesses@) =~= seq![definition@]);
    HarnessRegistryConfig {
        schema_version: CONFIG_SCHEMA_VERSION,
        default_harness: if definition.enabled { Some(definition.id.clone()) } else { None },
        harnesses,
    }
}

/// What became of assembling one instance: its resolved roots, or why it failed.
pub enum Assembly {
    Built(Vec<Location>),
    Failed(HarnessError),
}

pub enum AssemblyView {
    Built(Seq<LocationView>),
    Failed(Fault),
}

impl View for Assembly {
    type V = AssemblyView;

    open spec fn view(&self) -> AssemblyView {
        match self {
            Assembly::Built(roots) => AssemblyView::Built(locations_of(roots@)),
            Assembly::Failed(e) => AssemblyView::Failed(e@),
        }
    }
}

pub open spec fn assemblies_of(list: Seq<Assembly>) -> Seq<AssemblyView> {
    list.map_values(|a: Assembly| a@)
}

pub open spec fn available(d: DefinitionView, a: AssemblyView) -> bool {
    !d.enabled || a is Built
}

/// One instance as an inspection shows it.
pub open spec fn inspected(d: DefinitionView, a: AssemblyView, default: Option<Seq<char>>) -> Tree {
    let roots = match a {
        AssemblyView::Built(roots) => roots,
        AssemblyView::Failed(_) => d.workspace_roots,
    };
    let availability = if !d.enabled {
        "disabled"@
    } else if a is Built {
        "configured"@
    } else {
        "unavailable"@
    };
    let t1 = with_member(empty_object(), "id"@, Tree::Text(d.id));
    let t2 = with_member(t1, "adapter"@, Tree::Text(d.adapter));
    let t3 = with_member(t2, "address"@, Tree::Text(d.address));
    let t4 = with_member(t3, "enabled"@, Tree::Bool(d.enabled));
    let t5 = with_member(t4, "is_default"@, Tree::Bool(default == Some(d.id)));
    let t6 = with_member(t5, "workspace_roots"@, paths_tree(roots));
    let t7 = with_member(t6, "availability"@, Tree::Text(availability));
    let t8 = with_member(t7, "authentication"@, Tree::Text("not_checked"@));
    let t9 = with_member(t8, "runtime_status"@, Tree::Text("not_probed"@));
    with_member(
        t9,
        "reason"@,
        match a {
            AssemblyView::Built(_) => Tree::Null,
            AssemblyView::Failed(f) => error_tree(f),
        },
    )
}

pub open spec fn all_available(list: Seq<DefinitionView>, made: Seq<AssemblyView>) -> bool {
    forall|i: int| 0 <= i < list.len() ==> available(#[trigger] list[i], made[i])
}

/// An inspection of all instances.
pub open spec fn inspection(c: ConfigShape, made: Seq<AssemblyView>) -> Tree {
    let a = with_member(
        empty_object(),
        "status"@,
        Tree::Text(if all_available(c.harnesses, made) { "ok"@ } else { "unavailable"@ }),
    );
    let b = with_member(a, "default_harness"@, text_or_null(c.default_harness));
    with_member(
        b,
        "harnesses"@,
        Tree::Array(Seq::new(c.harnesses.len(), |i: int| inspected(c.harnesses[i], made[i], c.default_harness))),
    )
}

fn inspect_one(d: &HarnessDefinition, a: &Assembly, default: &Option<String>) -> (r: Json)
    ensures
        r@ == inspected(d@, a@, opt(*default)),
{
    let is_default = match default {
        None => false,
        Some(id) => same(id, &d.id),
    };
    let (roots, reason, built) = match a {
        Assembly::Built(roots) => (paths_json(roots), Json::Null, true),
        Assembly::Failed(e) => (paths_json(&d.workspace_roots), error_json(e), false),
    };
    let availability = if !d.enabled {
        "disabled"
    } else if built {
        "configured"
    } else {
        "unavailable"
    };
    let t1 = with(object(), "id", text_value(&d.id));
    let t2 = with(t1, "adapter", text_value(&d.adapter));
    let t3 = with(t2, "address", text_value(&d.address));
    let t4 = with(t3, "enabled", Json::Bool(d.enabled));
    let t5 = with(t4, "is_default", Json::Bool(is_default));
    let t6 = with(t5, "workspace_roots", roots);
    let t7 = with(t6, "availability", text_value(availability));
    let t8 = with(t7, "authentication", text_value("not_checked"));
    let t9 = with(t8, "runtime_status", text_value("not_probed"));
    with(t9, "reason", reason)
}

/// Shows what became of assembling each instance, and whether all enabled ones are there.
pub fn inspect_configuration(config: &HarnessRegistryConfig, made: &Vec<Assembly>) -> (r: (Json, bool))
    requires
        made.len() == config.harnesses.len(),
    ensures
        r.0@ == inspection(shape(*config), assemblies_of(made@)),
        r.1 == all_available(definitions_of(config.harnesses@), assemblies_of(made@)),
{
    let ghost list = definitions_of(config.harnesses@);
    let ghost seen = assemblies_of(made@);
    let ghost default = opt(config.default_harness);
    let mut all = true;
    let mut items: Vec<Json> = Vec::new();
    let mut i: usize = 0;
    while i < config.harnesses.len()
        invariant
            i <= config.harnesses.len(),
            made.len() == config.harnesses.len(),
            list == definitions_of(config.harnesses@),
            seen == assemblies_of(made@),
            default == opt(config.default_harness),
            items.len() == i,
            all == forall|j: int| 0 <= j < i ==> available(#[trigger] list[j], seen[j]),
            forall|j: int| 0 <= j < i ==> (#[trigger] items@[j])@ == inspected(list[j], seen[j], default),
        decreases config.harnesses.len() - i,
    {
        let d = &config.harnesses[i];
        let a = &made[i];
        assert(list[i as int] == d@ && seen[i as int] == a@);
        let built = match a {
            Assembly::Built(_) => true,
            Assembly::Failed(_) => false,
        };
        if d.enabled && !built {
            assert(!available(list[i as int], seen[i as int]));
            all = false;
        }
        items.push(inspect_one(d, a, &config.default_harness));
        i = i + 1;
    }
    let ghost had = items@;
    let array = Json::Array(items);
    proof {
        let want = Seq::new(list.len(), |i: int| inspected(list[i], seen[i], default));
        assert(trees(had).len() == want.len());
        assert forall|j: int| 0 <= j < want.len() implies trees(had)[j] == want[j] by {
            assert(had[j]@ == inspected(list[j], seen[j], default));
        }
        assert(trees(had) =~= want);
    }
    let status = if all { "ok" } else { "unavailable" };
    let a = with(object(), "status", text_value(status));
    let b = with(a, "default_harness", opt_json(&config.default_harness));
    (with(b, "harnesses", array), all)
}

/// A host's failure as a Harness failure.
pub fn host_error(error: HostError) -> (e: HarnessError)
    ensures
        e@ == (match error@ {
            super::host::Fault::Harness(f) => f,
            other => Fault::Unavailable("host"@, super::host::fault_message(other)),
        }),
{
    let message = error.message();
    match error {
        HostError::Harness(e) => e,
        _ => HarnessError::Unavailable { harness: copied("host"), message },
    }
}

/// The code that a failed Harness command exits with.
pub open spec fn code_of(f: Fault) -> u8 {
    match f {
        Fault::ConversationOutcomeUnknown(_) | Fault::ProjectCreationOutcomeUnknown(_) => 3,
        Fault::Interrupted(_) => 130,
        _ => 1,
    }
}

pub fn exit_code(error: &HarnessError) -> (r: u8)
    ensures
        r == code_of(error@),
{
    match error {
        HarnessError::ConversationOutcomeUnknown(_) | HarnessError::ProjectCreationOutcomeUnknown(_) => 3,
        HarnessError::Interrupted { .. } => 130,
        _ => 1,
    }
}

/// A failure of a command itself.
pub open spec fn failure_tree(category: Option<Seq<char>>, message: Seq<char>, outcome: Option<Tree>) -> Tree {
    let a = with_member(empty_object(), "status"@, Tree::Text("failed"@));
    let b = match category {
        Some(c) => with_member(a, "category"@, Tree::Text(c)),
        None => a,
    };
    let c = with_member(b, "message"@, Tree::Text(message));
    let d = match outcome {
        Some(v) => with_member(c, "operation_outcome"@, v),
        None => c,
    };
    with_member(d, "auto_retry"@, Tree::Bool(false))
}

pub open spec fn tree_of(v: Option<Json>) -> Option<Tree> {
    match v {
        Some(v) => Some(v@),
        None => None,
    }
}

/// Shows a failure of a command itself; the outcome of its operation is never dropped.
pub fn failure_json(category: Option<&str>, message: &str, outcome: Option<Json>) -> (r: Json)
    ensures
        r@ == failure_tree(crate::harnesses::registry::wanted(category), message@, tree_of(outcome)),
{
    let a = with(object(), "status", text_value("failed"));
    let b = match category {
        Some(c) => with(a, "category", text_value(c)),
        None => a,
    };
    let c = with(b, "message", text_value(message));
    let d = match outcome {
        Some(v) => with(c, "operation_outcome", v),
        None => c,
    };
    with(d, "auto_retry", Json::Bool(false))
}

// Repair commands.

/// Commands that work on the target.
pub fn needs_target(command: &str) -> (r: bool)
    ensures
        r == (command@ == "run"@ || command@ == "apply"@ || command@ == "reconcile"@),
{
    same(command, "run") || same(command, "apply") || same(command, "reconcile")
}

/// Commands that stay available even if a target was deleted or no longer satisfies
/// execution preconditions.
pub fn needs_store_only(command: &str) -> (r: bool)
    ensures
        r == (command@ == "inspect"@ || command@ == "approve"@ || command@ == "deny"@ || command@ == "revoke"@),
{
    same(command, "inspect") || same(command, "approve") || same(command, "deny") || same(command, "revoke")
}

/// The name under which a decision at the command line is recorded.
pub const LOCAL_OPERATOR: &'static str = "local-cli-operator";

/// The record that a command over the store alone plans: a revocation, or a decision of the
/// operator that approves for one command only.
pub open spec fn settlement(
    s: StoreView,
    command: Seq<char>,
    id: Seq<char>,
    reason: Seq<char>,
    policy: PolicyView,
    now: u64,
) -> Result<StepView, ApprovalFault> {
    if command == "revoke"@ {
        appended(planned_change(s, id, ChangeView::Revoke { reason }, now))
    } else {
        let decision = if command == "approve"@ { ApprovalDecision::Approve } else { ApprovalDecision::Deny };
        guarded(s, id, policy, None, human_change(decision, reason, LOCAL_OPERATOR@), now)
    }
}

pub fn settle(
    store: &ApprovalStore,
    command: &str,
    id: &str,
    reason: String,
    policy: &ApprovalPolicy,
    now: u64,
) -> (r: Result<Step, ApprovalError>)
    requires
        store.wf(),
    ensures
        plans(r, settlement(store@, command@, id@, reason@, policy@, now)),
{
    if same(command, "revoke") {
        return store.revoke(id, reason, now);
    }
    let decision = if same(command, "approve") { ApprovalDecision::Approve } else { ApprovalDecision::Deny };
    store.decide_human(id, decision, reason, copied(LOCAL_OPERATOR), policy, now)
}

/// The instances that a repair runs on: the executor, and the approver if it is a model.
pub open spec fn repair_ids(c: ConfigView) -> Seq<Seq<char>> {
    match c.policy.reviewer {
        ReviewerView::Human => seq![c.execution_harness],
        ReviewerView::Harness { harness_id } => seq![c.execution_harness, harness_id],
    }
}

pub open spec fn enabled(list: Seq<DefinitionView>, id: Seq<char>) -> bool {
    exists|i: int| 0 <= i < list.len() && (#[trigger] list[i]).id == id && list[i].enabled
}

pub open spec fn retained(list: Seq<DefinitionView>, ids: Seq<Seq<char>>) -> Seq<DefinitionView>
    decreases list.len(),
{
    if list.len() == 0 {
        Seq::empty()
    } else {
        let front = retained(list.drop_last(), ids);
        if ids.contains(list.last().id) { front.push(list.last()) } else { front }
    }
}

/// The configuration that a repair runs on, or the first instance that is missing.
pub open spec fn repair_config(c: ConfigShape, r: ConfigView) -> Result<ConfigShape, crate::recovery::workflow::Fault> {
    let ids = repair_ids(r);
    if !enabled(c.harnesses, ids[0]) {
        Err(invalid("selected Harness "@ + ids[0] + " missing or disabled"@))
    } else if ids.len() == 2 && !enabled(c.harnesses, ids[1]) {
        Err(invalid("selected Harness "@ + ids[1] + " missing or disabled"@))
    } else {
        Ok(
            ConfigShape {
                schema_version: c.schema_version,
                default_harness: Some(r.execution_harness),
                harnesses: retained(c.harnesses, ids),
            },
        )
    }
}

fn is_enabled(list: &Vec<HarnessDefinition>, id: &str) -> (r: bool)
    ensures
        r == enabled(definitions_of(list@), id@),
{
    let ghost all = definitions_of(list@);
    let mut i: usize = 0;
    while i < list.len()
        invariant
            i <= list.len(),
            all == definitions_of(list@),
            forall|j: int| 0 <= j < i ==> !((#[trigger] all[j]).id == id@ && all[j].enabled),
        decreases list.len() - i,
    {
        assert(all[i as int] == list@[i as int]@);
        if same(&list[i].id, id) && list[i].enabled {
            return true;
        }
        i = i + 1;
    }
    false
}

fn missing(id: &str) -> (e: WorkflowError)
    ensures
        e@ == invalid("selected Harness "@ + id@ + " missing or disabled"@),
{
    let mut text = joined("selected Harness ", id);
    text.append(" missing or disabled");
    WorkflowError::Invalid(text)
}

/// Keeps only the instances that a repair runs on.
pub fn select_repair(registry: &HarnessRegistryConfig, config: &RepairConfig) -> (r: Result<HarnessRegistryConfig, WorkflowError>)
    ensures
        match r {
            Ok(c) => repair_config(shape(*registry), config@) == Ok::<ConfigShape, crate::recovery::workflow::Fault>(shape(c)),
            Err(e) => repair_config(shape(*registry), config@) == Err::<ConfigShape, crate::recovery::workflow::Fault>(e@),
        },
{
    let mut ids: Vec<String> = Vec::new();
    ids.push(config.execution_harness.clone());
    assert(crate::text::texts(ids@) =~= seq![config@.execution_harness]);
    if let ReviewerConfig::Harness { harness_id } = &config.policy.reviewer {
        ids.push(harness_id.clone());
        assert(crate::text::texts(ids@) =~= seq![config@.execution_harness, harness_id@]);
    }
    let ghost want = repair_ids(config@);
    assert(crate::text::texts(ids@) =~= want);
    assert(want[0] == ids@[0]@);
    if !is_enabled(&registry.harnesses, &ids[0]) {
        return Err(missing(&ids[0]));
    }
    if ids.len() == 2 {
        assert(want[1] == ids@[1]@);
        if !is_enabled(&registry.harnesses, &ids[1]) {
            return Err(missing(&ids[1]));
        }
    }
    let ghost all = definitions_of(registry.harnesses@);
    let mut kept: Vec<HarnessDefinition> = Vec::new();
    let mut i: usize = 0;
    assert(all.subrange(0, 0) =~= Seq::<DefinitionView>::empty());
    assert(definitions_of(kept@) =~= Seq::<DefinitionView>::empty());
    while i < registry.harnesses.len()
        invariant
            i <= registry.harnesses.len(),
            all == definitions_of(registry.harnesses@),
            crate::text::texts(ids@) == want,
            definitions_of(kept@) == retained(all.subrange(0, i as int), want),
        decreases registry.harnesses.len() - i,
    {
        assert(all.subrange(0, i + 1).drop_last() =~= all.subrange(0, i as int));
        assert(all.subrange(0, i + 1).last() == registry.harnesses@[i as int]@);
        if crate::text::listed(&ids, &registry.harnesses[i].id) {
            let ghost before = definitions_of(kept@);
            kept.push(registry.harnesses[i].clone());
            assert(definitions_of(kept@) =~= before.push(registry.harnesses@[i as int]@));
        }
        i = i + 1;
    }
    assert(all.subrange(0, i as int) =~= all);
    Ok(
        HarnessRegistryConfig {
            schema_version: registry.schema_version,
            default_harness: Some(config.execution_harness.clone()),
            harnesses: kept,
        },
    )
}

/// The code that a repair command exits with, by its reported status.
pub open spec fn repair_code_of(report: Tree) -> u8 {
    match member(report, "status"@) {
        Some(Tree::Text(s)) => if s == "unknown"@ {
            3
        } else if s == "waiting_human"@ {
            4
        } else if s == "canceled"@ {
            130
        } else if s == "failed"@ || s == "blocked"@ {
            1
        } else {
            0
        },
        _ => 0,
    }
}

pub fn repair_exit_code(report: &Json) -> (r: u8)
    ensures
        r == repair_code_of(report@),
{
    match report.get("status") {
        Some(Json::Text(s)) => if same(s, "unknown") {
            3
        } else if same(s, "waiting_human") {
            4
        } else if same(s, "canceled") {
            130
        } else if same(s, "failed") || same(s, "blocked") {
            1
        } else {
            0
        },
        _ => 0,
    }
}

/// A failed repair command and its code.
pub open spec fn repair_failure(f: crate::recovery::workflow::Fault) -> (Tree, u8) {
    match f {
        crate::recovery::workflow::Fault::OutcomeUnknown { request_id, message } => {
            let a = with_member(empty_object(), "status"@, Tree::Text("unknown"@));
            let b = with_member(a, "request_id"@, Tree::Text(request_id));
            let c = with_member(b, "message"@, Tree::Text(message));
            (with_member(c, "auto_retry"@, Tree::Bool(false)), 3)
        },
        _ => {
            let a = with_member(empty_object(), "status"@, Tree::Text("failed"@));
            let b = with_member(a, "message"@, Tree::Text(workflow_message(f)));
            let c = with_member(b, "auto_retry"@, Tree::Bool(false));
            (
                with_member(
                    c,
                    "recovery"@,
                    Tree::Text("Inspect durable approval records before retrying any execution."@),
                ),
                1,
            )
        },
    }
}

pub fn repair_error(error: &WorkflowError) -> (r: (Json, u8))
    ensures
        (r.0@, r.1) == repair_failure(error@),
{
    match error {
        WorkflowError::OutcomeUnknown { request_id, message } => {
            let a = with(object(), "status", text_value("unknown"));
            let b = with(a, "request_id", text_value(request_id));
            let c = with(b, "message", text_value(message));
            (with(c, "auto_retry", Json::Bool(false)), 3)
        },
        _ => {
            let a = with(object(), "status", text_value("failed"));
            let b = with(a, "message", text_value(&error.message()));
            let c = with(b, "auto_retry", Json::Bool(false));
            (
                with(c, "recovery", text_value("Inspect durable approval records before retrying any execution.")),
                1,
            )
        },
    }
}

pub open spec fn ok_tree(key: Seq<char>, value: Tree) -> Tree {
    with_member(with_member(empty_object(), "status"@, Tree::Text("ok"@)), key, value)
}

/// What `inspect` reports of one approval, given as it is encoded.
pub fn inspected_record(record: Json) -> (r: Json)
    ensures
        r@ == ok_tree("record"@, record@),
{
    with(with(object(), "status", text_value("ok")), "record", record)
}

pub fn inspected_records(list: Vec<Json>) -> (r: Json)
    ensures
        r@ == ok_tree("records"@, Tree::Array(trees(list@))),
{
    with(with(object(), "status", text_value("ok")), "records", Json::Array(list))
}

/// What a decision reports: nothing was executed.
pub fn decided(record: Json) -> (r: Json)
    ensures
        r@ == with_member(ok_tree("record"@, record@), "executed"@, Tree::Bool(false)),
{
    with(inspected_record(record), "executed", Json::Bool(false))
}

pub open spec fn applied_tree(state: ApprovalState, record: Tree) -> Tree {
    let status = match state {
        ApprovalState::Executed => "completed"@,
        ApprovalState::Unknown => "unknown"@,
        _ => "failed"@,
    };
    let a = with_member(empty_object(), "status"@, Tree::Text(status));
    let b = with_member(a, "record"@, record);
    let c = with_member(b, "business_verified"@, Tree::Bool(false));
    with_member(c, "auto_retry"@, Tree::Bool(false))
}

/// What `apply` reports of an approval in this state.
pub fn applied(state: ApprovalState, record: Json) -> (r: Json)
    ensures
        r@ == applied_tree(state, record@),
{
    let status = match state {
        ApprovalState::Executed => "completed",
        ApprovalState::Unknown => "unknown",
        _ => "failed",
    };
    let a = with(object(), "status", text_value(status));
    let b = with(a, "record", record);
    let c = with(b, "business_verified", Json::Bool(false));
    with(c, "auto_retry", Json::Bool(false))
}

/// What `reconcile` reports: the write was not repeated.
pub fn reconciled(record: Json) -> (r: Json)
    ensures
        r@ == with_member(ok_tree("record"@, record@), "write_repeated"@, Tree::Bool(false)),
{
    with(inspected_record(record), "write_repeated", Json::Bool(false))
}

} // verus!
