//! What an operator sees and may do.
use super::plugins::{find_status, status_of};
use super::requests::node_of;
use crate::harnesses::{DefinitionView, HarnessDefinition};
use crate::interfaces::views::{paths_json, paths_tree};
use crate::json::values::{empty_object, object, opt_json, text_or_null, text_value, texts_json, texts_tree, with};
use crate::json::{group_json, member, with_member, Json, Tree};
use crate::nodes::registry::statuses_of;
use crate::nodes::{ExtensionStatus, StatusView};
use crate::recovery::approval::{ApprovalState, ReviewerConfig, ReviewerView};
use crate::text::{copied, joined, same, strip, texts};
use vstd::prelude::*;

verus! {

broadcast use group_json;

/// What an operator may do about approvals.
#[derive(Debug, Clone, Copy, PartialEq, Eq, Structural)]
pub struct Rights {
    pub decide: bool,
    pub apply: bool,
    pub reconcile: bool,
}

pub open spec fn undecided(s: ApprovalState) -> bool {
    s == ApprovalState::Pending || s == ApprovalState::WaitingHuman
}

/// What may be done about an approval now.
pub open spec fn actions(r: Rights, s: ApprovalState, unexpired: bool) -> Seq<Seq<char>> {
    let a: Seq<Seq<char>> = if r.decide && unexpired && undecided(s) { seq!["approve"@, "deny"@] } else { Seq::empty() };
    let b = if r.decide && (undecided(s) || s == ApprovalState::Approved) { a.push("revoke"@) } else { a };
    let c = if r.apply && s == ApprovalState::Approved && unexpired { b.push("apply"@) } else { b };
    if r.reconcile && s == ApprovalState::Unknown { c.push("reconcile"@) } else { c }
}

/// Lists what may be done about an approval; `now` is in milliseconds, `expires_at` in seconds.
pub fn allowed_actions(r: Rights, state: ApprovalState, expires_at: u64, now: u64) -> (list: Vec<String>)
    ensures
        texts(list@) == actions(r, state, expires_at > now / 1000),
{
    let unexpired = expires_at > now / 1000;
    let mut list: Vec<String> = Vec::new();
    let open = state == ApprovalState::Pending || state == ApprovalState::WaitingHuman;
    assert(texts(list@) =~= Seq::<Seq<char>>::empty());
    if r.decide && unexpired && open {
        list.push(copied("approve"));
        list.push(copied("deny"));
        assert(texts(list@) =~= seq!["approve"@, "deny"@]);
    }
    let ghost a = texts(list@);
    if r.decide && (open || state == ApprovalState::Approved) {
        list.push(copied("revoke"));
        assert(texts(list@) =~= a.push("revoke"@));
    }
    let ghost b = texts(list@);
    if r.apply && state == ApprovalState::Approved && unexpired {
        list.push(copied("apply"));
        assert(texts(list@) =~= b.push("apply"@));
    }
    let ghost c = texts(list@);
    if r.reconcile && state == ApprovalState::Unknown {
        list.push(copied("reconcile"));
        assert(texts(list@) =~= c.push("reconcile"@));
    }
    list
}

/// A receipt that was read out of a note: content may be verified, business never is.
pub open spec fn receipt_tree(raw: Tree) -> Tree {
    let verified = member(raw, "content_verified"@) == Some(Tree::Bool(true));
    let a = with_member(empty_object(), "contentVerified"@, Tree::Bool(verified));
    let b = with_member(a, "businessVerified"@, Tree::Bool(false));
    with_member(b, "raw"@, raw)
}

pub fn receipt(raw: Json) -> (r: Json)
    ensures
        r@ == receipt_tree(raw@),
{
    let verified = match raw.get("content_verified") {
        Some(Json::Bool(b)) => *b,
        _ => false,
    };
    let a = with(object(), "contentVerified", Json::Bool(verified));
    let b = with(a, "businessVerified", Json::Bool(false));
    with(b, "raw", raw)
}

/// Who decides under a policy.
pub open spec fn approver_text(v: ReviewerView) -> Seq<char> {
    match v {
        ReviewerView::Human => "人工"@,
        ReviewerView::Harness { harness_id } => "Harness · "@ + harness_id,
    }
}

pub fn approver(value: &ReviewerConfig) -> (r: String)
    ensures
        r@ == approver_text(value@),
{
    match value {
        ReviewerConfig::Human => copied("人工"),
        ReviewerConfig::Harness { harness_id } => joined("Harness · ", harness_id),
    }
}

/// The state of the node that an instance runs on.
pub open spec fn node_status(statuses: Seq<StatusView>, address: Seq<char>) -> Option<StatusView> {
    match node_of(address) {
        Some(id) => status_of(statuses, id),
        None => None,
    }
}

/// An instance as an operator sees it. Nothing is probed.
pub open spec fn harness_tree(h: DefinitionView, default: bool, statuses: Seq<StatusView>) -> Tree {
    let node = node_status(statuses, h.address);
    let availability = if !h.enabled {
        "disabled"@
    } else if node is Some && !node->0.available {
        "unavailable"@
    } else {
        "configured"@
    };
    let a = with_member(empty_object(), "id"@, Tree::Text(h.id));
    let b = with_member(a, "adapter"@, Tree::Text(h.adapter));
    let c = with_member(b, "address"@, Tree::Text(h.address));
    let d = with_member(c, "enabled"@, Tree::Bool(h.enabled));
    let e = with_member(d, "isDefault"@, Tree::Bool(default));
    let f = with_member(e, "availability"@, Tree::Text(availability));
    let g = with_member(f, "authentication"@, Tree::Text("not_checked"@));
    let i = with_member(g, "runtimeStatus"@, Tree::Text("not_probed"@));
    let j = with_member(
        i,
        "reason"@,
        match node {
            Some(s) => text_or_null(s.error),
            None => Tree::Null,
        },
    );
    let k = with_member(j, "workspaceRoots"@, paths_tree(h.workspace_roots));
    with_member(k, "projects"@, Tree::Null)
}

pub fn harness_value(h: &HarnessDefinition, default: bool, statuses: &Vec<ExtensionStatus>) -> (r: Json)
    ensures
        r@ == harness_tree(h@, default, statuses_of(statuses@)),
{
    let node = match strip(&h.address, "node://") {
        Some(id) => find_status(statuses, &id),
        None => None,
    };
    let down = match node {
        Some(s) => !s.available,
        None => false,
    };
    let availability = if !h.enabled {
        "disabled"
    } else if down {
        "unavailable"
    } else {
        "configured"
    };
    let reason = match node {
        Some(s) => opt_json(&s.error),
        None => Json::Null,
    };
    let a = with(object(), "id", text_value(&h.id));
    let b = with(a, "adapter", text_value(&h.adapter));
    let c = with(b, "address", text_value(&h.address));
    let d = with(c, "enabled", Json::Bool(h.enabled));
    let e = with(d, "isDefault", Json::Bool(default));
    let f = with(e, "availability", text_value(availability));
    let g = with(f, "authentication", text_value("not_checked"));
    let i = with(g, "runtimeStatus", text_value("not_probed"));
    let j = with(i, "reason", reason);
    let k = with(j, "workspaceRoots", paths_json(&h.workspace_roots));
    with(k, "projects", Json::Null)
}

pub open spec fn maturity(id: Seq<char>) -> Seq<char> {
    if id == "harness"@ || id == "text-repair"@ || id == "external-plugins"@ {
        "limited"@
    } else if id == "simulation"@ {
        "prototype"@
    } else {
        "implemented"@
    }
}

/// A capability of the host and whether it is configured.
pub open spec fn capability_tree(
    id: Seq<char>,
    name: Seq<char>,
    available: bool,
    list: Seq<Seq<char>>,
    limitation: Seq<char>,
) -> Tree {
    let a = with_member(empty_object(), "id"@, Tree::Text(id));
    let b = with_member(a, "name"@, Tree::Text(name));
    let c = with_member(b, "group"@, Tree::Text("运行时能力"@));
    let d = with_member(c, "state"@, Tree::Text(maturity(id)));
    let e = with_member(d, "availability"@, Tree::Text(if available { "available"@ } else { "unconfigured"@ }));
    let f = with_member(e, "actions"@, texts_tree(list));
    let g = with_member(f, "summary"@, Tree::Text(name));
    let h = with_member(g, "limitation"@, Tree::Text(limitation));
    with_member(h, "availableNow"@, Tree::Text(if available { "已配置"@ } else { "未配置"@ }))
}

pub fn capability(id: &str, name: &str, available: bool, list: &Vec<String>, limitation: &str) -> (r: Json)
    ensures
        r@ == capability_tree(id@, name@, available, texts(list@), limitation@),
{
    let state = if same(id, "harness") || same(id, "text-repair") || same(id, "external-plugins") {
        "limited"
    } else if same(id, "simulation") {
        "prototype"
    } else {
        "implemented"
    };
    let availability = if available { "available" } else { "unconfigured" };
    let now = if available { "已配置" } else { "未配置" };
    let a = with(object(), "id", text_value(id));
    let b = with(a, "name", text_value(name));
    let c = with(b, "group", text_value("运行时能力"));
    let d = with(c, "state", text_value(state));
    let e = with(d, "availability", text_value(availability));
    let f = with(e, "actions", texts_json(list));
    let g = with(f, "summary", text_value(name));
    let h = with(g, "limitation", text_value(limitation));
    with(h, "availableNow", text_value(now))
}

} // verus!
