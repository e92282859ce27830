//! Configuration-authorized inventory polling and bounded durable target enrollment.
use super::batch::SourceCheckpoint;
use super::config::{expanded, is_key, key_valid, keyed, keyed_id};
use super::state::{begun, binding, binding_tree, fresh_checkpoint, identity_changed, MonitorState};
use super::{
    copied_opt, DefinitionView, DiscoveryView, Fault, MonitorDefinition, MonitorDiscovery, MonitorError,
    ObservationRequest, MAX_BATCH,
};
use crate::json::values::{empty_object, object, opt_json, text_or_null, text_value, texts_json, texts_tree, with};
use crate::json::{alike, encoded, encoded_size, group_json, tree, trees, with_member, Json, Tree};
use crate::recovery::incidents::store::{IncidentStore, StoreView};
use crate::recovery::incidents::{CommitView, IncidentSignal, MonitorCommit, SignalView};
use crate::table::Table;
use crate::text::{
    byte_len, clip, clipped, copied, joined, less, less_irreflexive, less_transitive, listed, opt, same, texts,
    utf8_len,
};
use vstd::prelude::*;

verus! {

broadcast use group_json;

pub struct DiscoveryTarget {
    pub key: String,
}

pub struct DiscoveryBatch {
    pub schema_version: u32,
    pub complete: bool,
    pub targets: Vec<DiscoveryTarget>,
    pub error: Option<String>,
}

pub struct DiscoverySnapshot {
    pub id: String,
    pub extension_id: String,
    pub contract: String,
    pub version: u32,
    pub method: String,
    pub running: bool,
    pub last_received_at_ms: Option<u64>,
    pub complete: bool,
    pub known_targets: usize,
    pub present_targets: usize,
    pub last_error: Option<String>,
}

/// The keys enrolled so far, durable between runs.
pub struct InventoryCheckpoint {
    pub schema_version: u32,
    pub binding: String,
    pub keys: Vec<String>,
}

/// One inventory source. Each target carries a presence epoch: zero before the
/// first inventory, odd while present, even while absent.
pub struct DiscoveryState {
    pub config: MonitorDiscovery,
    pub binding: String,
    pub sequence: u64,
    pub targets: Table<u64>,
    pub view: DiscoverySnapshot,
}

// Mathematical models.

pub struct DiscoveryBatchView {
    pub schema_version: u32,
    pub complete: bool,
    pub targets: Seq<Seq<char>>,
    pub error: Option<Seq<char>>,
}

pub struct DiscoverySnapshotView {
    pub id: Seq<char>,
    pub extension_id: Seq<char>,
    pub contract: Seq<char>,
    pub version: u32,
    pub method: Seq<char>,
    pub running: bool,
    pub last_received_at_ms: Option<u64>,
    pub complete: bool,
    pub known_targets: usize,
    pub present_targets: usize,
    pub last_error: Option<Seq<char>>,
}

pub struct InventoryView {
    pub schema_version: u32,
    pub binding: Seq<char>,
    pub keys: Seq<Seq<char>>,
}

pub struct DiscoveryStateView {
    pub config: DiscoveryView,
    pub binding: Seq<char>,
    pub sequence: u64,
    pub targets: Map<Seq<char>, u64>,
    pub view: DiscoverySnapshotView,
}

pub open spec fn keys_of(list: Seq<DiscoveryTarget>) -> Seq<Seq<char>> {
    list.map_values(|t: DiscoveryTarget| t.key@)
}

impl View for DiscoveryBatch {
    type V = DiscoveryBatchView;

    open spec fn view(&self) -> DiscoveryBatchView {
        DiscoveryBatchView {
            schema_version: self.schema_version,
            complete: self.complete,
            targets: keys_of(self.targets@),
            error: opt(self.error),
        }
    }
}

impl View for DiscoverySnapshot {
    type V = DiscoverySnapshotView;

    open spec fn view(&self) -> DiscoverySnapshotView {
        DiscoverySnapshotView {
            id: self.id@,
            extension_id: self.extension_id@,
            contract: self.contract@,
            version: self.version,
            method: self.method@,
            running: self.running,
            last_received_at_ms: self.last_received_at_ms,
            complete: self.complete,
            known_targets: self.known_targets,
            present_targets: self.present_targets,
            last_error: opt(self.last_error),
        }
    }
}

impl View for InventoryCheckpoint {
    type V = InventoryView;

    open spec fn view(&self) -> InventoryView {
        InventoryView { schema_version: self.schema_version, binding: self.binding@, keys: texts(self.keys@) }
    }
}

impl View for DiscoveryState {
    type V = DiscoveryStateView;

    open spec fn view(&self) -> DiscoveryStateView {
        DiscoveryStateView {
            config: self.config@,
            binding: self.binding@,
            sequence: self.sequence,
            targets: self.targets@,
            view: self.view@,
        }
    }
}

impl Clone for DiscoverySnapshot {
    fn clone(&self) -> (r: Self)
        ensures
            r@ == self@,
    {
        DiscoverySnapshot {
            id: self.id.clone(),
            extension_id: self.extension_id.clone(),
            contract: self.contract.clone(),
            version: self.version,
            method: self.method.clone(),
            running: self.running,
            last_received_at_ms: self.last_received_at_ms,
            complete: self.complete,
            known_targets: self.known_targets,
            present_targets: self.present_targets,
            last_error: copied_opt(&self.last_error),
        }
    }
}

/// What identifies an inventory; its checkpoint belongs to one binding.
pub open spec fn inventory_tree(d: DiscoveryView) -> Tree {
    Tree::Array(
        seq![
            Tree::Text(d.extension_id),
            Tree::Text(d.contract),
            Tree::Unsigned(d.version as u64),
            Tree::Text(d.method),
            d.params,
            Tree::Text(d.parameter),
            Tree::Text(d.template.id),
            Tree::Text(encoded(binding_tree(d.template))),
        ],
    )
}

pub open spec fn distinct(keys: Seq<Seq<char>>) -> bool {
    forall|i: int, j: int| 0 <= i < j < keys.len() ==> #[trigger] keys[i] != #[trigger] keys[j]
}

pub open spec fn all_keys(keys: Seq<Seq<char>>) -> bool {
    forall|i: int| 0 <= i < keys.len() ==> is_key(#[trigger] keys[i])
}

pub open spec fn inventory_valid(c: InventoryView, d: DiscoveryView) -> bool {
    &&& c.schema_version == 1
    &&& c.binding == encoded(inventory_tree(d))
    &&& c.keys.len() <= d.max_targets
    &&& all_keys(c.keys)
    &&& distinct(c.keys)
}

pub open spec fn stored_keys(stored: Option<(InventoryCheckpoint, u64)>) -> Seq<Seq<char>> {
    match stored {
        Some((c, _)) => c@.keys,
        None => Seq::empty(),
    }
}

/// All keys with the epoch of the unverified.
pub open spec fn unverified(keys: Seq<Seq<char>>) -> Map<Seq<char>, u64> {
    Map::new(|k: Seq<char>| keys.contains(k), |k: Seq<char>| 0u64)
}

pub open spec fn restored(d: DiscoveryView, keys: Seq<Seq<char>>, sequence: u64) -> DiscoveryStateView {
    DiscoveryStateView {
        config: d,
        binding: encoded(inventory_tree(d)),
        sequence,
        targets: unverified(keys),
        view: DiscoverySnapshotView {
            id: d.id,
            extension_id: d.extension_id,
            contract: d.contract,
            version: d.version,
            method: d.method,
            running: true,
            last_received_at_ms: None,
            complete: false,
            known_targets: keys.len() as usize,
            present_targets: 0,
            last_error: None,
        },
    }
}

/// The monitor of one discovered key.
pub open spec fn enrolled(d: DiscoveryView, key: Seq<char>) -> DefinitionView {
    DefinitionView {
        id: keyed_id(d.template.id, key),
        target_id: keyed_id(d.template.target_id, key),
        source_id: keyed_id(d.template.source_id, key),
        ..expanded(d, key)
    }
}

pub open spec fn target_tree(key: Seq<char>) -> Tree {
    with_member(empty_object(), "key"@, Tree::Text(key))
}

pub open spec fn discovery_batch_tree(b: DiscoveryBatchView) -> Tree {
    let t = with_member(empty_object(), "schema_version"@, Tree::Unsigned(b.schema_version as u64));
    let t = with_member(t, "complete"@, Tree::Bool(b.complete));
    let t = with_member(t, "targets"@, Tree::Array(b.targets.map_values(|k: Seq<char>| target_tree(k))));
    with_member(t, "error"@, text_or_null(b.error))
}

pub open spec fn inventory_checkpoint_tree(c: InventoryView) -> Tree {
    let t = with_member(empty_object(), "schema_version"@, Tree::Unsigned(c.schema_version as u64));
    let t = with_member(t, "binding"@, Tree::Text(c.binding));
    with_member(t, "keys"@, texts_tree(c.keys))
}

pub open spec fn within_limits(b: DiscoveryBatchView) -> bool {
    &&& b.schema_version == 1
    &&& b.targets.len() <= 64
    &&& b.error is Some ==> 0 < b.error->0.len() && byte_len(b.error->0) <= 2048
    &&& encoded_size(discovery_batch_tree(b)) <= MAX_BATCH
}

/// Every key known after a batch.
pub open spec fn known_after(s: DiscoveryStateView, b: DiscoveryBatchView) -> Set<Seq<char>> {
    s.targets.dom() + b.targets.to_set()
}

/// Why an inventory is not taken in.
pub open spec fn admission_fault(s: DiscoveryStateView, b: DiscoveryBatchView, accepting: bool) -> Option<Fault> {
    if !within_limits(b) {
        Some(Fault::Observation("invalid discovery response or limits"@))
    } else if !all_keys(b.targets) || !distinct(b.targets) {
        Some(Fault::Observation("invalid or duplicate discovered key"@))
    } else if known_after(s, b).len() > s.config.max_targets {
        Some(Fault::Observation("discovery lifetime target capacity exhausted"@))
    } else if !accepting {
        Some(Fault::Stopped)
    } else {
        None
    }
}

/// The list holds exactly the keys of a set, ascending.
pub open spec fn lists(list: Seq<Seq<char>>, keys: Set<Seq<char>>) -> bool {
    &&& forall|i: int, j: int| 0 <= i < j < list.len() ==> less(#[trigger] list[i], #[trigger] list[j])
    &&& forall|k: Seq<char>| #[trigger] list.contains(k) <==> keys.contains(k)
}

/// A target counts as present after an inventory that lists it or not.
pub open spec fn expected(previous: u64, present: bool, complete: bool) -> bool {
    present || (!complete && previous % 2 == 1)
}

/// The presence epoch after an inventory; none once the numbers run out.
pub open spec fn next_epoch(previous: u64, present: bool, complete: bool) -> Option<u64> {
    let expected = expected(previous, present, complete);
    if previous == 0 && complete && !expected {
        Some(2)
    } else if (previous % 2 == 1) != expected {
        if previous == u64::MAX { None } else { Some((previous + 1) as u64) }
    } else {
        Some(previous)
    }
}

/// All targets once additions are enrolled as present.
pub open spec fn joined_targets(targets: Map<Seq<char>, u64>, additions: Seq<Seq<char>>) -> Map<Seq<char>, u64> {
    Map::new(
        |k: Seq<char>| targets.contains_key(k) || additions.contains(k),
        |k: Seq<char>| if additions.contains(k) { 1u64 } else { targets[k] },
    )
}

pub open spec fn fully(b: DiscoveryBatchView) -> bool {
    b.complete && b.error is None
}

pub open spec fn exhausted(targets: Map<Seq<char>, u64>, b: DiscoveryBatchView, k: Seq<char>) -> bool {
    targets.contains_key(k) && next_epoch(targets[k], b.targets.contains(k), fully(b)) is None
}

/// A key at or after one whose epochs ran out is left alone.
pub open spec fn blocked(targets: Map<Seq<char>, u64>, b: DiscoveryBatchView, k: Seq<char>) -> bool {
    exists|e: Seq<char>| #[trigger] exhausted(targets, b, e) && !less(k, e)
}

/// The presence of every target after an inventory.
pub open spec fn moved_targets(targets: Map<Seq<char>, u64>, b: DiscoveryBatchView) -> Map<Seq<char>, u64> {
    Map::new(
        |k: Seq<char>| targets.contains_key(k),
        |k: Seq<char>|
            if blocked(targets, b, k) {
                targets[k]
            } else {
                next_epoch(targets[k], b.targets.contains(k), fully(b))->0
            },
    )
}

pub open spec fn any_exhausted(targets: Map<Seq<char>, u64>, b: DiscoveryBatchView) -> bool {
    exists|k: Seq<char>| #[trigger] exhausted(targets, b, k)
}

/// Targets whose epoch is odd.
pub open spec fn present(targets: Map<Seq<char>, u64>) -> Set<Seq<char>> {
    targets.dom().filter(|k: Seq<char>| targets[k] % 2 == 1)
}

pub open spec fn shown(s: DiscoveryStateView, accepting: bool) -> DiscoveryStateView {
    DiscoveryStateView {
        view: DiscoverySnapshotView {
            known_targets: s.targets.dom().len() as usize,
            present_targets: present(s.targets).len() as usize,
            running: accepting,
            ..s.view
        },
        ..s
    }
}

pub open spec fn rejected(s: DiscoveryStateView, message: Seq<char>, accepting: bool) -> DiscoveryStateView {
    shown(
        DiscoveryStateView {
            view: DiscoverySnapshotView { complete: false, last_error: Some(clipped(message, 500)), ..s.view },
            ..s
        },
        accepting,
    )
}

/// The state after an inventory whose additions are durable.
pub open spec fn settled(
    s: DiscoveryStateView,
    b: DiscoveryBatchView,
    additions: Seq<Seq<char>>,
    wall_ms: u64,
    accepting: bool,
) -> (DiscoveryStateView, Option<Fault>) {
    let base = joined_targets(s.targets, additions);
    let sequence = if additions.len() == 0 { s.sequence } else { (s.sequence + 1) as u64 };
    let moved = DiscoveryStateView { sequence, targets: moved_targets(base, b), ..s };
    if any_exhausted(base, b) {
        (moved, Some(Fault::Runtime("discovery presence epoch exhausted"@)))
    } else {
        (
            shown(
                DiscoveryStateView {
                    view: DiscoverySnapshotView {
                        last_received_at_ms: Some(wall_ms),
                        complete: fully(b),
                        last_error: if b.error is Some {
                            b.error
                        } else if fully(b) {
                            None
                        } else {
                            Some("discovery inventory is partial"@)
                        },
                        ..s.view
                    },
                    ..moved
                },
                accepting,
            ),
            None,
        )
    }
}

/// The commit that makes new keys durable before any of them is watched.
pub open spec fn enrollment(s: DiscoveryStateView, known: Seq<Seq<char>>, wall_ms: u64) -> Result<CommitView, Fault> {
    if s.sequence == u64::MAX {
        Err(Fault::Configuration("discovery sequence exhausted"@))
    } else {
        Ok(
            CommitView {
                monitor_id: "discovery."@ + s.config.id,
                sequence: (s.sequence + 1) as u64,
                checkpoint: inventory_checkpoint_tree(
                    InventoryView { schema_version: 1, binding: s.binding, keys: known },
                ),
                signals: Seq::<SignalView>::empty(),
                now_ms: wall_ms,
            },
        )
    }
}

/// The store holds exactly these keys of a discovery, as of this commit; nothing of one
/// that never enrolled a key.
pub open spec fn recorded(store: StoreView, s: DiscoveryStateView) -> bool {
    let id = "discovery."@ + s.config.id;
    if store.monitors.contains_key(id) {
        &&& store.monitors[id].commit.sequence == s.sequence
        &&& exists|keys: Seq<Seq<char>>| #[trigger]
            lists(keys, s.targets.dom()) && alike(
                store.monitors[id].commit.checkpoint,
                inventory_checkpoint_tree(InventoryView { schema_version: 1, binding: s.binding, keys }),
            )
    } else {
        s.sequence == 0 && s.targets.dom() == Set::<Seq<char>>::empty()
    }
}

/// A discovery with new keys, one commit later.
pub open spec fn extended(s: DiscoveryStateView, additions: Seq<Seq<char>>) -> DiscoveryStateView {
    DiscoveryStateView {
        sequence: (s.sequence + 1) as u64,
        targets: joined_targets(s.targets, additions),
        ..s
    }
}

/// The epoch an observation depends on; none while the target is not present.
pub open spec fn observed_epoch(presence: u64) -> Option<u64> {
    if presence % 2 == 1 { Some(presence) } else { None }
}

// Executable steps.

pub fn inventory_binding(d: &MonitorDiscovery) -> (r: String)
    ensures
        r@ == encoded(inventory_tree(d@)),
{
    let mut items: Vec<Json> = Vec::new();
    items.push(text_value(&d.extension_id));
    items.push(text_value(&d.contract));
    items.push(Json::Unsigned(d.version as u64));
    items.push(text_value(&d.method));
    items.push(d.params.copy());
    items.push(text_value(&d.parameter));
    items.push(text_value(&d.template.id));
    items.push(Json::Text(binding(&d.template)));
    assert(trees(items@) =~= inventory_tree(d@)->Array_0);
    Json::Array(items).render()
}

/// The epoch an observation of a target depends on.
pub fn observation_epoch(presence: u64) -> (r: Option<u64>)
    ensures
        r == observed_epoch(presence),
{
    if presence % 2 == 1 { Some(presence) } else { None }
}

/// Whether the target still waits for its first inventory.
pub fn observation_pending(presence: u64) -> (r: bool)
    ensures
        r == (presence == 0),
{
    presence == 0
}

fn keys_valid(keys: &Vec<String>) -> (r: bool)
    ensures
        r == all_keys(texts(keys@)),
{
    let mut i: usize = 0;
    while i < keys.len()
        invariant
            i <= keys.len(),
            forall|j: int| 0 <= j < i ==> is_key(#[trigger] texts(keys@)[j]),
        decreases keys.len() - i,
    {
        if !key_valid(&keys[i]) {
            assert(!is_key(texts(keys@)[i as int]));
            return false;
        }
        i = i + 1;
    }
    true
}

fn keys_distinct(keys: &Vec<String>) -> (r: bool)
    ensures
        r == distinct(texts(keys@)),
{
    let ghost all = texts(keys@);
    let mut i: usize = 0;
    while i < keys.len()
        invariant
            i <= keys.len(),
            all == texts(keys@),
            forall|j: int, k: int| 0 <= j < k < i ==> #[trigger] all[j] != #[trigger] all[k],
        decreases keys.len() - i,
    {
        let mut j: usize = 0;
        while j < i
            invariant
                j <= i < keys.len(),
                all == texts(keys@),
                forall|k: int| 0 <= k < j ==> #[trigger] all[k] != all[i as int],
            decreases i - j,
        {
            if same(&keys[j], &keys[i]) {
                assert(all[j as int] == all[i as int]);
                return false;
            }
            j = j + 1;
        }
        i = i + 1;
    }
    true
}

impl DiscoveryBatch {
    pub fn to_json(&self) -> (r: Json)
        ensures
            r@ == discovery_batch_tree(self@),
    {
        let mut list: Vec<Json> = Vec::new();
        let mut i: usize = 0;
        while i < self.targets.len()
            invariant
                i <= self.targets.len(),
                list.len() == i,
                forall|j: int| 0 <= j < i ==> tree(#[trigger] list@[j]) == target_tree(self.targets@[j].key@),
            decreases self.targets.len() - i,
        {
            list.push(with(object(), "key", text_value(&self.targets[i].key)));
            i = i + 1;
        }
        assert(trees(list@) =~= self@.targets.map_values(|k: Seq<char>| target_tree(k)));
        let t = with(object(), "schema_version", Json::Unsigned(self.schema_version as u64));
        let t = with(t, "complete", Json::Bool(self.complete));
        let t = with(t, "targets", Json::Array(list));
        with(t, "error", opt_json(&self.error))
    }

    /// The listed keys.
    pub fn keys(&self) -> (r: Vec<String>)
        ensures
            texts(r@) == self@.targets,
    {
        let mut r: Vec<String> = Vec::new();
        let mut i: usize = 0;
        while i < self.targets.len()
            invariant
                i <= self.targets.len(),
                r.len() == i,
                forall|j: int| 0 <= j < i ==> (#[trigger] r@[j])@ == self.targets@[j].key@,
            decreases self.targets.len() - i,
        {
            r.push(self.targets[i].key.clone());
            i = i + 1;
        }
        assert(texts(r@) =~= self@.targets);
        r
    }

    fn limited(&self) -> (r: bool)
        ensures
            r == within_limits(self@),
    {
        let error = match &self.error {
            Some(error) => !error.as_str().is_empty() && utf8_len(error) <= 2048,
            None => true,
        };
        self.schema_version == 1 && self.targets.len() <= 64 && error && self.to_json().size() <= MAX_BATCH
    }
}

impl InventoryCheckpoint {
    pub fn to_json(&self) -> (r: Json)
        ensures
            r@ == inventory_checkpoint_tree(self@),
    {
        let t = with(object(), "schema_version", Json::Unsigned(self.schema_version as u64));
        let t = with(t, "binding", text_value(&self.binding));
        with(t, "keys", texts_json(&self.keys))
    }
}

/// The keys of a table, in order.
fn table_keys(table: &Table<u64>) -> (r: Vec<String>)
    requires
        table.wf(),
    ensures
        lists(texts(r@), table@.dom()),
        r.len() == table@.dom().len(),
        r.len() == table.listed().len(),
        forall|i: int| 0 <= i < r.len() ==> (#[trigger] r@[i])@ == table.listed()[i].0@,
{
    let mut r: Vec<String> = Vec::new();
    let mut i: usize = 0;
    while i < table.len()
        invariant
            i <= table.listed().len(),
            r.len() == i,
            forall|j: int| 0 <= j < i ==> (#[trigger] r@[j])@ == table.listed()[j].0@,
        decreases table.listed().len() - i,
    {
        r.push(copied(table.key(i)));
        i = i + 1;
    }
    proof {
        table.lists_its_entries();
        let list = texts(r@);
        assert forall|k: Seq<char>| #[trigger] list.contains(k) <==> table@.dom().contains(k) by {
            if list.contains(k) {
                let j = choose|j: int| 0 <= j < list.len() && list[j] == k;
                table.entry_at(j);
            }
            if table@.contains_key(k) {
                let j = table.entry_of(k);
                assert(list[j] == k);
            }
        }
        assert forall|a: int, b: int| 0 <= a < b < list.len() implies less(#[trigger] list[a], #[trigger] list[b]) by {
            assert(less(table.listed()[a].0@, table.listed()[b].0@));
        }
    }
    r
}

/// A table of the keys, each unverified.
fn key_table(keys: &Vec<String>, epoch: u64, base: Table<u64>) -> (r: Table<u64>)
    requires
        base.wf(),
    ensures
        r.wf(),
        r@ == Map::new(
            |k: Seq<char>| base@.contains_key(k) || texts(keys@).contains(k),
            |k: Seq<char>| if texts(keys@).contains(k) { epoch } else { base@[k] },
        ),
{
    let ghost all = texts(keys@);
    let ghost start = base@;
    let mut r = base;
    let mut i: usize = 0;
    assert(r@ =~= Map::new(
        |k: Seq<char>| start.contains_key(k) || all.subrange(0, 0).contains(k),
        |k: Seq<char>| if all.subrange(0, 0).contains(k) { epoch } else { start[k] },
    ));
    while i < keys.len()
        invariant
            i <= keys.len(),
            all == texts(keys@),
            r.wf(),
            r@ == Map::new(
                |k: Seq<char>| start.contains_key(k) || all.subrange(0, i as int).contains(k),
                |k: Seq<char>| if all.subrange(0, i as int).contains(k) { epoch } else { start[k] },
            ),
        decreases keys.len() - i,
    {
        r.insert(keys[i].clone(), epoch);
        proof {
            let head = all.subrange(0, i as int);
            let next = all.subrange(0, i + 1);
            assert(next =~= head.push(all[i as int]));
            assert forall|k: Seq<char>| #[trigger] next.contains(k) <==> head.contains(k) || k == all[i as int] by {
                if head.contains(k) {
                    let j = choose|j: int| 0 <= j < head.len() && head[j] == k;
                    assert(next[j] == k);
                }
                if k == all[i as int] {
                    assert(next[i as int] == k);
                }
                if next.contains(k) {
                    let j = choose|j: int| 0 <= j < next.len() && next[j] == k;
                    if j < i {
                        assert(head[j] == k);
                    }
                }
            }
            assert(r@ =~= Map::new(
                |k: Seq<char>| start.contains_key(k) || next.contains(k),
                |k: Seq<char>| if next.contains(k) { epoch } else { start[k] },
            ));
        }
        i = i + 1;
    }
    assert(all.subrange(0, i as int) =~= all);
    r
}

/// A list of distinct items is as long as the set of them.
pub proof fn distinct_len(keys: Seq<Seq<char>>)
    requires
        distinct(keys),
    ensures
        keys.to_set().len() == keys.len(),
        keys.to_set().finite(),
{
    assert(keys.no_duplicates());
    keys.unique_seq_to_set();
    vstd::seq_lib::seq_to_set_is_finite(keys);
}

/// What an admitted inventory asks for.
pub struct Admission {
    /// Keys not seen before, ascending.
    pub additions: Vec<String>,
    /// All keys once those are enrolled, ascending.
    pub known: Vec<String>,
}

impl DiscoveryState {
    pub open spec fn wf(&self) -> bool {
        self.targets.wf()
    }

    pub fn id(&self) -> (r: &str)
        ensures
            r@ == self@.config.id,
    {
        &self.config.id
    }

    /// The id under which the inventory is stored.
    pub fn checkpoint_id(&self) -> (r: String)
        ensures
            r@ == "discovery."@ + self@.config.id,
    {
        joined("discovery.", &self.config.id)
    }

    pub fn snapshot(&self) -> (r: DiscoverySnapshot)
        ensures
            r@ == self@.view,
    {
        self.view.clone()
    }

    /// The known keys, ascending.
    pub fn keys(&self) -> (r: Vec<String>)
        requires
            self.wf(),
        ensures
            lists(texts(r@), self@.targets.dom()),
    {
        table_keys(&self.targets)
    }

    /// The presence epoch of a key; zero where it is not known.
    pub fn presence(&self, key: &str) -> (r: u64)
        requires
            self.wf(),
        ensures
            r == if self@.targets.contains_key(key@) { self@.targets[key@] } else { 0 },
    {
        match self.targets.get(key) {
            Some(epoch) => *epoch,
            None => 0,
        }
    }

    /// Goes on from the stored inventory and its sequence number, if there is one.
    pub fn restore(config: MonitorDiscovery, stored: Option<(InventoryCheckpoint, u64)>) -> (r: Result<Self, MonitorError>)
        ensures
            ({
                let valid = stored is Some ==> inventory_valid((stored->0).0@, config@);
                match r {
                    Ok(s) => valid && s.wf() && s@ == restored(
                        config@,
                        stored_keys(stored),
                        match stored {
                            Some((_, n)) => n,
                            None => 0,
                        },
                    ),
                    Err(e) => !valid && e@ == Fault::Configuration(
                        "discovery checkpoint binding or lifetime target limit changed"@,
                    ),
                }
            }),
    {
        let binding = inventory_binding(&config);
        let ghost given = stored;
        let (keys, sequence): (Vec<String>, u64) = match stored {
            Some((checkpoint, sequence)) => {
                if checkpoint.schema_version != 1 || !same(&checkpoint.binding, &binding) || checkpoint.keys.len()
                    > config.max_targets || !keys_valid(&checkpoint.keys) || !keys_distinct(&checkpoint.keys) {
                    return Err(
                        MonitorError::Configuration(
                            copied("discovery checkpoint binding or lifetime target limit changed"),
                        ),
                    );
                }
                (checkpoint.keys, sequence)
            },
            None => (Vec::new(), 0),
        };
        assert(texts(keys@) =~= stored_keys(given));
        let view = DiscoverySnapshot {
            id: config.id.clone(),
            extension_id: config.extension_id.clone(),
            contract: config.contract.clone(),
            version: config.version,
            method: config.method.clone(),
            running: true,
            last_received_at_ms: None,
            complete: false,
            known_targets: keys.len(),
            present_targets: 0,
            last_error: None,
        };
        let none: Table<u64> = Table::new();
        let targets = key_table(&keys, 0, none);
        assert(targets@ =~= unverified(texts(keys@)));
        Ok(DiscoveryState { config, binding, sequence, targets, view })
    }

    /// The monitor of one key.
    pub fn definition(&self, key: &str) -> (r: MonitorDefinition)
        ensures
            r@ == enrolled(self@.config, key@),
    {
        let mut d = self.config.template.clone();
        d.id = keyed(&d.id, key);
        d.target_id = keyed(&d.target_id, key);
        d.source_id = keyed(&d.source_id, key);
        d.params.set(&self.config.parameter, text_value(key));
        d
    }

    /// The next inventory call.
    pub fn request(&self) -> (r: ObservationRequest)
        ensures
            r.extension_id@ == self@.config.extension_id,
            r.contract@ == self@.config.contract,
            r.version == self@.config.version,
            r.method@ == self@.config.method,
            r.params@ == self@.config.params,
            r.timeout_ms == self@.config.timeout_ms,
    {
        ObservationRequest {
            extension_id: self.config.extension_id.clone(),
            contract: self.config.contract.clone(),
            version: self.config.version,
            method: self.config.method.clone(),
            params: self.config.params.copy(),
            timeout_ms: self.config.timeout_ms,
        }
    }

    /// Checks an inventory and tells which keys it adds.
    pub fn examine(&self, batch: &DiscoveryBatch, accepting: bool) -> (r: Result<Admission, MonitorError>)
        requires
            self.wf(),
        ensures
            match r {
                Ok(a) => admission_fault(self@, batch@, accepting) is None && lists(
                    texts(a.known@),
                    known_after(self@, batch@),
                ) && lists(texts(a.additions@), batch@.targets.to_set() - self@.targets.dom()),
                Err(e) => admission_fault(self@, batch@, accepting) == Some(e@),
            },
    {
        if !batch.limited() {
            return Err(MonitorError::Observation(copied("invalid discovery response or limits")));
        }
        let keys = batch.keys();
        if !keys_valid(&keys) || !keys_distinct(&keys) {
            return Err(MonitorError::Observation(copied("invalid or duplicate discovered key")));
        }
        let empty: Table<u64> = Table::new();
        let current = self.keys();
        let old_table = key_table(&current, 0, empty);
        let table = key_table(&keys, 1, old_table);
        let known = table_keys(&table);
        proof {
            assert(table@.dom() =~= known_after(self@, batch@));
        }
        if known.len() > self.config.max_targets {
            return Err(MonitorError::Observation(copied("discovery lifetime target capacity exhausted")));
        }
        if !accepting {
            return Err(MonitorError::Stopped);
        }
        let ghost all = texts(known@);
        let ghost wanted = batch@.targets.to_set() - self@.targets.dom();
        let mut additions: Vec<String> = Vec::new();
        let mut i: usize = 0;
        while i < known.len()
            invariant
                self.wf(),
                i <= known.len(),
                all == texts(known@),
                lists(all, known_after(self@, batch@)),
                wanted == batch@.targets.to_set() - self@.targets.dom(),
                forall|a: int, b: int|
                    0 <= a < b < additions.len() ==> less(#[trigger] texts(additions@)[a], #[trigger] texts(additions@)[b]),
                forall|a: int, b: int|
                    0 <= a < additions.len() && i <= b < all.len() ==> less(
                        #[trigger] texts(additions@)[a],
                        #[trigger] all[b],
                    ),
                forall|a: int| 0 <= a < additions.len() ==> wanted.contains(#[trigger] texts(additions@)[a]),
                forall|a: int|
                    0 <= a < i && !self@.targets.contains_key(#[trigger] all[a]) ==> texts(additions@).contains(all[a]),
            decreases known.len() - i,
        {
            if !self.targets.has(&known[i]) {
                let ghost was = texts(additions@);
                additions.push(known[i].clone());
                proof {
                    let now = texts(additions@);
                    assert(now =~= was.push(all[i as int]));
                    assert(all.contains(all[i as int]));
                    assert(now[now.len() - 1] == all[i as int]);
                    assert forall|a: int| 0 <= a <= i && !self@.targets.contains_key(#[trigger] all[a]) implies now.contains(
                        all[a],
                    ) by {
                        if a < i {
                            let m = choose|m: int| 0 <= m < was.len() && was[m] == all[a];
                            assert(now[m] == all[a]);
                        } else {
                            assert(now[now.len() - 1] == all[a]);
                        }
                    }
                }
            }
            i = i + 1;
        }
        proof {
            let out = texts(additions@);
            assert forall|k: Seq<char>| #[trigger] out.contains(k) <==> wanted.contains(k) by {
                if wanted.contains(k) {
                    assert(known_after(self@, batch@).contains(k));
                    assert(all.contains(k));
                    let m = choose|m: int| 0 <= m < all.len() && all[m] == k;
                    assert(!self@.targets.contains_key(all[m]));
                }
            }
        }
        Ok(Admission { additions, known })
    }

    /// The monitor of an added key, restored from its own stored checkpoint.
    pub fn prepare(&self, key: &str, taken: bool, stored: Option<(SourceCheckpoint, u64)>, now: u64) -> (r: Result<
        MonitorState,
        MonitorError,
    >)
        ensures
            ({
                let d = enrolled(self@.config, key@);
                let checkpoint = match stored {
                    Some((c, _)) => c@,
                    None => fresh_checkpoint(d),
                };
                let sequence = match stored {
                    Some((_, n)) => n,
                    None => 0,
                };
                match r {
                    Ok(s) => !taken && checkpoint.binding == encoded(binding_tree(d)) && s@ == begun(
                        d,
                        checkpoint,
                        sequence,
                        now,
                    ),
                    Err(e) => if taken {
                        e@ == Fault::Configuration("discovered monitor identity conflicts with existing monitor"@)
                    } else {
                        checkpoint.binding != encoded(binding_tree(d)) && e@ == identity_changed(d.id)
                    },
                }
            }),
    {
        if taken {
            return Err(
                MonitorError::Configuration(copied("discovered monitor identity conflicts with existing monitor")),
            );
        }
        MonitorState::restore(self.definition(key), stored, now)
    }

    /// The commit that must be durable before the additions are watched.
    pub fn enroll(&self, known: Vec<String>, wall_ms: u64) -> (r: Result<MonitorCommit, MonitorError>)
        ensures
            match r {
                Ok(c) => enrollment(self@, texts(known@), wall_ms) == Ok::<CommitView, Fault>(c@),
                Err(e) => enrollment(self@, texts(known@), wall_ms) == Err::<CommitView, Fault>(e@),
            },
    {
        if self.sequence == u64::MAX {
            return Err(MonitorError::Configuration(copied("discovery sequence exhausted")));
        }
        let checkpoint = InventoryCheckpoint { schema_version: 1, binding: self.binding.clone(), keys: known };
        let signals: Vec<IncidentSignal> = Vec::new();
        let c = MonitorCommit {
            monitor_id: self.checkpoint_id(),
            sequence: self.sequence + 1,
            checkpoint: checkpoint.to_json(),
            signals,
            now_ms: wall_ms,
        };
        assert(c@.signals =~= Seq::<SignalView>::empty());
        Ok(c)
    }

    fn count_present(&self) -> (n: usize)
        requires
            self.wf(),
        ensures
            n == present(self@.targets).len(),
    {
        let ghost targets = self.targets@;
        let ghost mut counted: Set<Seq<char>> = Set::empty();
        let mut n: usize = 0;
        let mut i: usize = 0;
        while i < self.targets.len()
            invariant
                self.wf(),
                targets == self.targets@,
                i <= self.targets.listed().len(),
                n <= i,
                counted.finite(),
                counted.len() == n,
                forall|k: Seq<char>| #[trigger]
                    counted.contains(k) ==> exists|j: int|
                        0 <= j < i && (#[trigger] self.targets.listed()[j]).0@ == k && self.targets.listed()[j].1 % 2 == 1,
                forall|j: int|
                    0 <= j < i && (#[trigger] self.targets.listed()[j]).1 % 2 == 1 ==> counted.contains(
                        self.targets.listed()[j].0@,
                    ),
            decreases self.targets.listed().len() - i,
        {
            let epoch: u64 = *self.targets.value(i);
            if epoch % 2 == 1 {
                proof {
                    let k = self.targets.listed()[i as int].0@;
                    assert(!counted.contains(k)) by {
                        if counted.contains(k) {
                            let j = choose|j: int|
                                0 <= j < i && (#[trigger] self.targets.listed()[j]).0@ == k && self.targets.listed()[j].1 % 2 == 1;
                            assert(less(self.targets.listed()[j].0@, self.targets.listed()[i as int].0@));
                            less_irreflexive(k);
                        }
                    }
                    counted = counted.insert(k);
                }
                n = n + 1;
            }
            i = i + 1;
        }
        proof {
            let set = present(targets);
            assert forall|k: Seq<char>| #[trigger] counted.contains(k) <==> set.contains(k) by {
                if counted.contains(k) {
                    let j = choose|j: int|
                        0 <= j < i && (#[trigger] self.targets.listed()[j]).0@ == k && self.targets.listed()[j].1 % 2 == 1;
                    self.targets.entry_at(j);
                }
                if set.contains(k) {
                    let j = self.targets.entry_of(k);
                }
            }
            assert(counted =~= set);
        }
        n
    }

    /// Refreshes the numbers shown, and shows them.
    pub fn publish(&mut self, accepting: bool) -> (r: DiscoverySnapshot)
        requires
            old(self).wf(),
        ensures
            final(self).wf(),
            final(self)@ == shown(old(self)@, accepting),
            r@ == final(self)@.view,
    {
        proof {
            self.targets.lists_its_entries();
        }
        self.view.known_targets = self.targets.len();
        self.view.present_targets = self.count_present();
        self.view.running = accepting;
        self.view.clone()
    }

    /// Records why an inventory was not taken in.
    pub fn reject(&mut self, message: &str, accepting: bool) -> (r: DiscoverySnapshot)
        requires
            old(self).wf(),
        ensures
            final(self).wf(),
            final(self)@ == rejected(old(self)@, message@, accepting),
            r@ == final(self)@.view,
    {
        self.view.complete = false;
        self.view.last_error = Some(clip(message, 500));
        self.publish(accepting)
    }

    /// Takes in an admitted inventory; what it adds, the store holds already.
    pub fn settle(
        &mut self,
        batch: &DiscoveryBatch,
        additions: &Vec<String>,
        store: &IncidentStore,
        wall_ms: u64,
        accepting: bool,
    ) -> (r: Result<DiscoverySnapshot, MonitorError>)
        requires
            old(self).wf(),
            additions@.len() > 0 ==> old(self)@.sequence < u64::MAX && recorded(
                store@,
                extended(old(self)@, texts(additions@)),
            ),
        ensures
            final(self).wf(),
            final(self)@ == settled(old(self)@, batch@, texts(additions@), wall_ms, accepting).0,
            match r {
                Ok(view) => settled(old(self)@, batch@, texts(additions@), wall_ms, accepting).1 is None && view@
                    == final(self)@.view,
                Err(e) => settled(old(self)@, batch@, texts(additions@), wall_ms, accepting).1 == Some(e@),
            },
    {
        if additions.len() > 0 {
            self.sequence = self.sequence + 1;
        }
        let mut base: Table<u64> = Table::new();
        std::mem::swap(&mut base, &mut self.targets);
        self.targets = key_table(additions, 1, base);
        let ghost targets = self.targets@;
        assert(targets =~= joined_targets(old(self)@.targets, texts(additions@)));
        let keys = batch.keys();
        let complete = batch.complete && batch.error.is_none();
        let ghost b = batch@;
        let order = table_keys(&self.targets);
        let ghost all = texts(order@);
        let mut i: usize = 0;
        assert(self.targets@ =~= partly_moved(targets, b, all, 0));
        while i < order.len()
            invariant
                i <= order.len(),
                self.targets.wf(),
                all == texts(order@),
                lists(all, targets.dom()),
                b == batch@,
                texts(keys@) == b.targets,
                complete == fully(b),
                texts(additions@).len() == additions@.len(),
                self.targets@ == partly_moved(targets, b, all, i as int),
                forall|j: int| 0 <= j < i ==> !exhausted(targets, b, #[trigger] all[j]),
                self.config == old(self).config,
                self.binding == old(self).binding,
                self.view == old(self).view,
                self@.sequence == (if additions@.len() == 0 { old(self)@.sequence } else { (old(self)@.sequence + 1) as u64 }),
                targets == joined_targets(old(self)@.targets, texts(additions@)),
            decreases order.len() - i,
        {
            let ghost k = all[i as int];
            proof {
                assert(all.contains(k));
                assert(!all.subrange(0, i as int).contains(k)) by {
                    if all.subrange(0, i as int).contains(k) {
                        let j = choose|j: int| 0 <= j < i && all.subrange(0, i as int)[j] == k;
                        assert(less(all[j], all[i as int]));
                        less_irreflexive(k);
                    }
                }
            }
            let previous: u64 = match self.targets.get(&order[i]) {
                Some(epoch) => *epoch,
                None => 0,
            };
            assert(previous == targets[k]);
            let listed_now = listed(&keys, &order[i]);
            let wanted = listed_now || (!complete && previous % 2 == 1);
            let next: u64 = if previous == 0 && complete && !wanted {
                2
            } else if (previous % 2 == 1) != wanted {
                if previous == u64::MAX {
                    proof {
                        assert(exhausted(targets, b, k));
                        stops_at(targets, b, all, i as int);
                    }
                    return Err(MonitorError::Runtime(copied("discovery presence epoch exhausted")));
                }
                previous + 1
            } else {
                previous
            };
            self.targets.insert(order[i].clone(), next);
            proof {
                let head = all.subrange(0, i as int);
                let longer = all.subrange(0, i + 1);
                assert(longer =~= head.push(k));
                assert forall|q: Seq<char>| #[trigger] longer.contains(q) <==> head.contains(q) || q == k by {
                    if head.contains(q) {
                        let j = choose|j: int| 0 <= j < head.len() && head[j] == q;
                        assert(longer[j] == q);
                    }
                    if q == k {
                        assert(longer[i as int] == q);
                    }
                    if longer.contains(q) {
                        let j = choose|j: int| 0 <= j < longer.len() && longer[j] == q;
                        if j < i {
                            assert(head[j] == q);
                        }
                    }
                }
                assert(self.targets@ =~= partly_moved(targets, b, all, i + 1));
            }
            i = i + 1;
        }
        proof {
            runs_through(targets, b, all);
        }
        self.view.last_received_at_ms = Some(wall_ms);
        self.view.complete = complete;
        self.view.last_error = match &batch.error {
            Some(error) => Some(error.clone()),
            None => if complete { None } else { Some(copied("discovery inventory is partial")) },
        };
        Ok(self.publish(accepting))
    }
}

/// The first `n` keys moved, the others not yet.
spec fn partly_moved(targets: Map<Seq<char>, u64>, b: DiscoveryBatchView, all: Seq<Seq<char>>, n: int) -> Map<Seq<char>, u64> {
    Map::new(
        |k: Seq<char>| targets.contains_key(k),
        |k: Seq<char>|
            if all.subrange(0, n).contains(k) {
                next_epoch(targets[k], b.targets.contains(k), fully(b))->0
            } else {
                targets[k]
            },
    )
}

proof fn stops_at(targets: Map<Seq<char>, u64>, b: DiscoveryBatchView, all: Seq<Seq<char>>, n: int)
    requires
        lists(all, targets.dom()),
        0 <= n < all.len(),
        exhausted(targets, b, all[n]),
        forall|j: int| 0 <= j < n ==> !exhausted(targets, b, #[trigger] all[j]),
    ensures
        partly_moved(targets, b, all, n) == moved_targets(targets, b),
        any_exhausted(targets, b),
{
    assert forall|k: Seq<char>| targets.contains_key(k) implies blocked(targets, b, k) == !all.subrange(0, n).contains(k) by {
        assert(all.contains(k));
        let i = choose|i: int| 0 <= i < all.len() && all[i] == k;
        if i < n {
            assert(all.subrange(0, n)[i] == k);
            if blocked(targets, b, k) {
                let e = choose|e: Seq<char>| #[trigger] exhausted(targets, b, e) && !less(k, e);
                assert(all.contains(e));
                let j = choose|j: int| 0 <= j < all.len() && all[j] == e;
                assert(j >= n);
                assert(less(all[i], all[j]));
            }
        } else {
            if all.subrange(0, n).contains(k) {
                let j = choose|j: int| 0 <= j < n && all.subrange(0, n)[j] == k;
                assert(less(all[j], all[i]));
                less_irreflexive(k);
            }
            if less(k, all[n]) {
                if i > n {
                    assert(less(all[n], all[i]));
                    less_transitive(k, all[n], k);
                }
                less_irreflexive(k);
            }
            assert(blocked(targets, b, k));
        }
    }
    assert(partly_moved(targets, b, all, n) =~= moved_targets(targets, b));
}

proof fn runs_through(targets: Map<Seq<char>, u64>, b: DiscoveryBatchView, all: Seq<Seq<char>>)
    requires
        lists(all, targets.dom()),
        forall|j: int| 0 <= j < all.len() ==> !exhausted(targets, b, #[trigger] all[j]),
    ensures
        partly_moved(targets, b, all, all.len() as int) == moved_targets(targets, b),
        !any_exhausted(targets, b),
{
    assert(all.subrange(0, all.len() as int) =~= all);
    assert forall|k: Seq<char>| !#[trigger] exhausted(targets, b, k) by {
        if targets.contains_key(k) {
            assert(all.contains(k));
        }
    }
    assert forall|k: Seq<char>| targets.contains_key(k) implies #[trigger] all.contains(k) by {}
    assert(partly_moved(targets, b, all, all.len() as int) =~= moved_targets(targets, b));
}

/// What a discovery worker does after one round.
pub enum Round {
    /// The inventory was taken in, or its refusal recorded.
    Continue,
    /// The engine no longer accepts anything.
    Stop,
    /// The engine has failed.
    Fail(MonitorError),
    /// The refusal has to be recorded.
    Reject(String),
}

/// What follows from one round's result.
pub fn after_round(result: Result<(), MonitorError>) -> (r: Round)
    ensures
        match result {
            Ok(_) => r is Continue,
            Err(MonitorError::Stopped) => r is Stop,
            Err(e) => if e is Incident || e is Runtime {
                r is Fail && r->Fail_0@ == e@
            } else {
                r is Reject && r->Reject_0@ == super::fault_message(e@)
            },
        },
{
    match result {
        Ok(_) => Round::Continue,
        Err(error) => match error {
            MonitorError::Stopped => Round::Stop,
            MonitorError::Incident(e) => Round::Fail(MonitorError::Incident(e)),
            MonitorError::Runtime(m) => Round::Fail(MonitorError::Runtime(m)),
            other => Round::Reject(other.message()),
        },
    }
}

} // verus!
