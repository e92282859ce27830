//! What holds of every registry.
use super::registry::{
    allows, connect_sequence, connected, consumed, declared, disabled_of, enabled_of, finished, harness_fault, in_namespaces,
    may_read, method_named, node_contract_fault, owner_of, plugin_staged, read_call, registered, staged, unconnected,
    view_call, OwnedView, RegistryView,
};
use super::{
    clashes, config_fault, extension_fault, id_repeats, namespace_fault, overlap, taken, AllowedView, ExtensionView,
    RegistrationView, StatusView,
};
use crate::faults::earliest_none;
use crate::json::Tree;
use crate::monitors::config::reserved_contract;
use crate::protocol::schema::check_fault;
use crate::protocol::{ContractView, ExtensionKind, Fault, MetadataView, MethodView};
use crate::text::starts_with;
use vstd::prelude::*;

verus! {

/// A namespace claimed at one place.
proof fn taken_holds(list: Seq<ExtensionView>, i: int, j: int, a: int, b: int)
    requires
        0 <= a <= i < list.len(),
        0 <= j <= list[i].namespaces.len(),
        0 <= b < list[a].namespaces.len(),
        a < i || b < j,
    ensures
        taken(list, i, j).contains(list[a].namespaces[b]),
    decreases i,
{
    let x = list[a].namespaces[b];
    let own = list[i].namespaces.subrange(0, j);
    if a == i {
        assert(own[b] == x);
        if i > 0 {
            let front = taken(list, i - 1, list[i - 1].namespaces.len() as int);
            assert((front + own)[front.len() + b] == x);
        }
    } else {
        let front = taken(list, i - 1, list[i - 1].namespaces.len() as int);
        taken_holds(list, i - 1, list[i - 1].namespaces.len() as int, a, b);
        let k = choose|k: int| 0 <= k < front.len() && front[k] == x;
        assert((front + own)[k] == x);
    }
}

/// In a valid configuration no two claimed namespaces overlap.
pub proof fn namespaces_are_disjoint(
    schema_version: u32,
    list: Seq<ExtensionView>,
    located: Seq<bool>,
    i: int,
    j: int,
    a: int,
    b: int,
)
    requires
        config_fault(schema_version, list, located) is None,
        0 <= a <= i < list.len(),
        0 <= j < list[i].namespaces.len(),
        0 <= b < list[a].namespaces.len(),
        a < i || b < j,
    ensures
        !overlap(list[a].namespaces[b], list[i].namespaces[j]),
{
    let f = |k: int| extension_fault(list, located, k);
    earliest_none(list.len(), f);
    assert(f(i) is None);
    let g = |k: int| namespace_fault(list, i, k);
    earliest_none(list[i].namespaces.len(), g);
    assert(g(j) is None);
    taken_holds(list, i, j, a, b);
    let all = taken(list, i, j);
    let k = choose|k: int| 0 <= k < all.len() && all[k] == list[a].namespaces[b];
    assert(!clashes(all, list[i].namespaces[j]));
    assert(!overlap(all[k], list[i].namespaces[j]));
}

/// Every registered contract stands once.
pub open spec fn single(list: Seq<OwnedView>) -> bool {
    forall|i: int, j: int|
        0 <= i < j < list.len() ==> !((#[trigger] list[i]).contract.id == (#[trigger] list[j]).contract.id
            && list[i].contract.version == list[j].contract.version)
}

proof fn not_registered(list: Seq<OwnedView>, id: Seq<char>, version: u32)
    requires
        registered(list, id, version) is None,
    ensures
        forall|i: int| 0 <= i < list.len() ==> !((#[trigger] list[i]).contract.id == id && list[i].contract.version == version),
    decreases list.len(),
{
    if list.len() > 0 {
        not_registered(list.drop_last(), id, version);
        assert forall|i: int| 0 <= i < list.len() implies !((#[trigger] list[i]).contract.id == id && list[i].contract.version
            == version) by {
            if i < list.len() - 1 {
                assert(list.drop_last()[i] == list[i]);
            }
        }
    }
}

proof fn staging_keeps_single(list: Seq<OwnedView>, d: ExtensionView, m: MetadataView, n: nat)
    requires
        single(list),
        plugin_staged(list, d, m, n) is Ok,
    ensures
        single(plugin_staged(list, d, m, n)->Ok_0),
        list.len() <= plugin_staged(list, d, m, n)->Ok_0.len(),
        plugin_staged(list, d, m, n)->Ok_0.subrange(0, list.len() as int) == list,
        forall|i: int|
            list.len() <= i < plugin_staged(list, d, m, n)->Ok_0.len() ==> (#[trigger] plugin_staged(
                list,
                d,
                m,
                n,
            )->Ok_0[i]).owner == d.id && in_namespaces(plugin_staged(list, d, m, n)->Ok_0[i].contract.id, d.namespaces),
    decreases n,
{
    if n > 0 {
        staging_keeps_single(list, d, m, (n - 1) as nat);
        let before = plugin_staged(list, d, m, (n - 1) as nat)->Ok_0;
        let after = plugin_staged(list, d, m, n)->Ok_0;
        not_registered(before, m.contracts[n - 1].id, m.contracts[n - 1].version);
        assert(after.subrange(0, list.len() as int) =~= before.subrange(0, list.len() as int));
    } else {
        assert(list.subrange(0, list.len() as int) =~= list);
    }
}

/// Registration keeps every contract single, takes none away, and gives new ones only to
/// the plugin in whose namespace they lie.
pub proof fn registration_keeps_owners(r: RegistryView, d: ExtensionView, probe: Result<MetadataView, Fault>)
    requires
        single(r.contracts),
    ensures
        single(connected(r, d, probe).contracts),
        r.contracts.len() <= connected(r, d, probe).contracts.len(),
        connected(r, d, probe).contracts.subrange(0, r.contracts.len() as int) == r.contracts,
        d.kind == ExtensionKind::Node ==> connected(r, d, probe).contracts == r.contracts,
        forall|i: int|
            r.contracts.len() <= i < connected(r, d, probe).contracts.len() ==> (#[trigger] connected(
                r,
                d,
                probe,
            ).contracts[i]).owner == d.id && in_namespaces(connected(r, d, probe).contracts[i].contract.id, d.namespaces),
{
    assert(r.contracts.subrange(0, r.contracts.len() as int) =~= r.contracts);
    if let Ok(m) = probe {
        if d.kind == ExtensionKind::Plugin && staged(r.contracts, d, m) is Ok {
            staging_keeps_single(r.contracts, d, m, m.contracts.len());
        }
    }
}

/// A registration that fails changes nothing but the list of statuses.
pub proof fn failed_registrations_change_nothing(r: RegistryView, d: ExtensionView, probe: Result<MetadataView, Fault>)
    requires
        match probe {
            Ok(m) => staged(r.contracts, d, m) is Err,
            Err(_) => true,
        },
    ensures
        connected(r, d, probe).entries == r.entries,
        connected(r, d, probe).contracts == r.contracts,
        connected(r, d, probe).statuses.len() == r.statuses.len() + 1,
        !connected(r, d, probe).statuses.last().available,
{
}

/// A node joins only with contracts that a plugin registered with the same declaration,
/// or with the Harness contract.
pub proof fn nodes_implement_registered_contracts(r: RegistryView, d: ExtensionView, m: MetadataView, i: int)
    requires
        d.kind == ExtensionKind::Node,
        staged(r.contracts, d, m) is Ok,
        0 <= i < m.contracts.len(),
    ensures
        (m.contracts[i].id == "recuvora.harness"@ && m.contracts[i].version == 1) || consumed(r.contracts, m.contracts[i]),
{
    let f = |k: int| node_contract_fault(r.contracts, d, m.contracts[k]);
    earliest_none(m.contracts.len(), f);
    assert(f(i) is None);
}

/// Nothing is called that the trusted configuration does not list; generic calls reach
/// only read-only methods of contracts that are not the host's own.
pub proof fn reads_are_allowed_and_read_only(
    r: RegistryView,
    id: Seq<char>,
    contract: Seq<char>,
    version: u32,
    method: Seq<char>,
    params: Tree,
    room: bool,
)
    requires
        read_call(r, id, contract, version, method, params, room) is Ok,
    ensures
        r.entries.contains_key(id),
        allows(r.entries[id].definition.allow_calls, contract, version, method),
        read_call(r, id, contract, version, method, params, room)->Ok_0.read_only,
        !starts_with(contract, "recuvora."@),
        room,
{
}

/// A view call goes to a plugin that owns the contract, and to a read-only method.
pub proof fn view_calls_stay_with_their_plugin(r: RegistryView, g: RegistrationView, params: Tree, room: bool)
    requires
        view_call(r, g, params, room) is Ok,
    ensures
        r.entries.contains_key(g.extension_id),
        r.entries[g.extension_id].definition.kind == ExtensionKind::Plugin,
        view_call(r, g, params, room)->Ok_0.read_only,
        !reserved_contract(g.contract),
        allows(r.entries[g.extension_id].definition.allow_calls, g.contract, g.version, g.method),
{
}

/// The registry once the extensions of `order` were asked, one after the other; `answers` is
/// what each said of itself.
pub open spec fn all_asked(
    r: RegistryView,
    order: Seq<ExtensionView>,
    answers: spec_fn(Seq<char>) -> Result<MetadataView, Fault>,
) -> RegistryView
    decreases order.len(),
{
    if order.len() == 0 {
        r
    } else {
        connected(all_asked(r, order.drop_last(), answers), order.last(), answers(order.last().id))
    }
}

/// The registry after a whole connection.
pub open spec fn connection(list: Seq<ExtensionView>, answers: spec_fn(Seq<char>) -> Result<MetadataView, Fault>) -> RegistryView {
    finished(all_asked(unconnected(list), connect_sequence(list), answers))
}

/// No two extensions have one id.
spec fn distinct(list: Seq<ExtensionView>) -> bool {
    forall|i: int, j: int| 0 <= i < j < list.len() ==> (#[trigger] list[i]).id != (#[trigger] list[j]).id
}

/// `d` stands among the first `n` at a place whose extension is enabled and of that kind.
spec fn picked(list: Seq<ExtensionView>, kind: ExtensionKind, n: nat, d: ExtensionView) -> bool {
    exists|i: int| 0 <= i < n && (#[trigger] list[i]) == d && d.enabled && d.kind == kind
}

proof fn enabled_are_picked(list: Seq<ExtensionView>, kind: ExtensionKind, n: nat)
    requires
        n <= list.len(),
        distinct(list),
    ensures
        distinct(enabled_of(list, kind, n)),
        forall|k: int| 0 <= k < enabled_of(list, kind, n).len() ==> picked(list, kind, n, #[trigger] enabled_of(list, kind, n)[k]),
        forall|d: ExtensionView| #[trigger] picked(list, kind, n, d) ==> enabled_of(list, kind, n).contains(d),
    decreases n,
{
    if n > 0 {
        let m = (n - 1) as nat;
        enabled_are_picked(list, kind, m);
        let front = enabled_of(list, kind, m);
        let all = enabled_of(list, kind, n);
        let last = list[n - 1];
        assert forall|k: int| 0 <= k < all.len() implies picked(list, kind, n, #[trigger] all[k]) by {
            if k < front.len() {
                assert(all[k] == front[k]);
                assert(picked(list, kind, m, front[k]));
                let i = choose|i: int| 0 <= i < m && (#[trigger] list[i]) == front[k] && front[k].enabled && front[k].kind == kind;
                assert(list[i] == all[k]);
            } else {
                assert(list[n - 1] == all[k]);
            }
        }
        assert forall|d: ExtensionView| #[trigger] picked(list, kind, n, d) implies all.contains(d) by {
            let i = choose|i: int| 0 <= i < n && (#[trigger] list[i]) == d && d.enabled && d.kind == kind;
            if i < m {
                assert(picked(list, kind, m, d));
                let k = choose|k: int| 0 <= k < front.len() && front[k] == d;
                assert(all[k] == d);
            } else {
                assert(all[front.len() as int] == d);
            }
        }
        assert forall|a: int, b: int| 0 <= a < b < all.len() implies (#[trigger] all[a]).id != (#[trigger] all[b]).id by {
            if b < front.len() {
                assert(front[a].id != front[b].id);
            } else {
                assert(picked(list, kind, m, front[a]));
                let i = choose|i: int| 0 <= i < m && (#[trigger] list[i]) == front[a] && front[a].enabled && front[a].kind == kind;
                assert(list[i].id != last.id);
            }
        }
    }
}

spec fn enabled_in(list: Seq<ExtensionView>, d: ExtensionView) -> bool {
    exists|i: int| 0 <= i < list.len() && (#[trigger] list[i]) == d && list[i].enabled
}

/// A status is that of a disabled extension among the first `n`.
spec fn left_out(list: Seq<ExtensionView>, n: nat, s: StatusView) -> bool {
    exists|i: int|
        0 <= i < n && !(#[trigger] list[i]).enabled && s.id == list[i].id && s.kind == list[i].kind && !s.available
            && s.error is Some
}

#[verifier::spinoff_prover]
#[verifier::rlimit(40)]
proof fn disabled_are_left_out(list: Seq<ExtensionView>, n: nat)
    requires
        n <= list.len(),
        distinct(list),
    ensures
        forall|k: int| 0 <= k < disabled_of(list, n).len() ==> left_out(list, n, #[trigger] disabled_of(list, n)[k]),
        forall|a: int, b: int|
            0 <= a < b < disabled_of(list, n).len() ==> (#[trigger] disabled_of(list, n)[a]).id != (
            #[trigger] disabled_of(list, n)[b]).id,
        forall|i: int|
            0 <= i < n && !(#[trigger] list[i]).enabled ==> exists|k: int|
                0 <= k < disabled_of(list, n).len() && (#[trigger] disabled_of(list, n)[k]).id == list[i].id
                    && disabled_of(list, n)[k].kind == list[i].kind,
        disabled_of(list, n).len() + enabled_of(list, ExtensionKind::Plugin, n).len() + enabled_of(
            list,
            ExtensionKind::Node,
            n,
        ).len() == n,
    decreases n,
{
    if n > 0 {
        let m = (n - 1) as nat;
        disabled_are_left_out(list, m);
        let front = disabled_of(list, m);
        let all = disabled_of(list, n);
        assert forall|k: int| 0 <= k < all.len() implies left_out(list, n, #[trigger] all[k]) by {
            if k < front.len() {
                assert(all[k] == front[k]);
                assert(left_out(list, m, front[k]));
                let i = choose|i: int|
                    0 <= i < m && !(#[trigger] list[i]).enabled && front[k].id == list[i].id && front[k].kind == list[i].kind
                        && !front[k].available && front[k].error is Some;
                assert(!list[i].enabled && all[k].id == list[i].id);
            } else {
                assert(!list[n - 1].enabled && all[k].id == list[n - 1].id);
            }
        }
        assert forall|a: int, b: int| 0 <= a < b < all.len() implies (#[trigger] all[a]).id != (#[trigger] all[b]).id by {
            if b < front.len() {
                assert(front[a].id != front[b].id);
            } else {
                assert(left_out(list, m, front[a]));
                let i = choose|i: int|
                    0 <= i < m && !(#[trigger] list[i]).enabled && front[a].id == list[i].id && front[a].kind == list[i].kind
                        && !front[a].available && front[a].error is Some;
                assert(list[i].id != list[n - 1].id);
            }
        }
        assert forall|i: int| 0 <= i < n && !(#[trigger] list[i]).enabled implies exists|k: int|
            0 <= k < all.len() && (#[trigger] all[k]).id == list[i].id && all[k].kind == list[i].kind by {
            if i < m {
                let k = choose|k: int|
                    0 <= k < front.len() && (#[trigger] front[k]).id == list[i].id && front[k].kind == list[i].kind;
                assert(all[k].id == list[i].id && all[k].kind == list[i].kind);
            } else {
                assert(all[front.len() as int].id == list[i].id);
            }
        }
    }
}

/// Asking gives each extension its status, in order, and an entry exactly where it joined.
proof fn asking_answers_each(
    list: Seq<ExtensionView>,
    order: Seq<ExtensionView>,
    answers: spec_fn(Seq<char>) -> Result<MetadataView, Fault>,
)
    requires
        distinct(order),
    ensures
        ({
            let r = all_asked(unconnected(list), order, answers);
            &&& r.definitions == list
            &&& r.statuses.len() == order.len()
            &&& forall|k: int|
                0 <= k < order.len() ==> (#[trigger] r.statuses[k]).id == order[k].id && r.statuses[k].kind == order[k].kind
                    && (r.statuses[k].available <==> r.entries.contains_key(order[k].id)) && (r.statuses[k].available
                    <==> r.statuses[k].error is None)
            &&& forall|id: Seq<char>| #[trigger]
                r.entries.contains_key(id) ==> exists|k: int|
                    0 <= k < order.len() && (#[trigger] order[k]).id == id && r.entries[id].definition == order[k]
        }),
    decreases order.len(),
{
    if order.len() > 0 {
        let front = order.drop_last();
        let last = order.last();
        assert(distinct(front)) by {
            assert forall|i: int, j: int| 0 <= i < j < front.len() implies (#[trigger] front[i]).id != (#[trigger] front[j]).id by {
                assert(order[i].id != order[j].id);
            }
        }
        asking_answers_each(list, front, answers);
        let was = all_asked(unconnected(list), front, answers);
        let r = all_asked(unconnected(list), order, answers);
        assert(!was.entries.contains_key(last.id)) by {
            if was.entries.contains_key(last.id) {
                let k = choose|k: int| 0 <= k < front.len() && (#[trigger] front[k]).id == last.id && was.entries[last.id].definition
                    == front[k];
                assert(order[k].id != order[order.len() - 1].id);
            }
        }
        assert forall|k: int| 0 <= k < order.len() implies (#[trigger] r.statuses[k]).id == order[k].id && r.statuses[k].kind
            == order[k].kind && (r.statuses[k].available <==> r.entries.contains_key(order[k].id)) && (
        r.statuses[k].available <==> r.statuses[k].error is None) by {
            if k < front.len() {
                assert(r.statuses[k] == was.statuses[k]);
                assert(front[k] == order[k]);
                assert(order[k].id != order[order.len() - 1].id);
            }
        }
        assert forall|id: Seq<char>| #[trigger] r.entries.contains_key(id) implies exists|k: int|
            0 <= k < order.len() && (#[trigger] order[k]).id == id && r.entries[id].definition == order[k] by {
            if was.entries.contains_key(id) {
                let k = choose|k: int| 0 <= k < front.len() && (#[trigger] front[k]).id == id && was.entries[id].definition
                    == front[k];
                assert(order[k].id == id);
                assert(id != last.id);
            } else {
                assert(order[order.len() - 1].id == id);
            }
        }
    }
}

/// `statuses` has one for this extension.
pub open spec fn has_status(statuses: Seq<StatusView>, d: ExtensionView) -> bool {
    exists|k: int| 0 <= k < statuses.len() && (#[trigger] statuses[k]).id == d.id && statuses[k].kind == d.kind
}

/// The status and the entry of an extension agree.
pub open spec fn agrees(r: RegistryView, s: StatusView) -> bool {
    &&& s.available <==> r.entries.contains_key(s.id)
    &&& s.available <==> s.error is None
}

/// An entry is that of an enabled extension of the configuration.
pub open spec fn configured(r: RegistryView, id: Seq<char>) -> bool {
    exists|i: int|
        0 <= i < r.definitions.len() && (#[trigger] r.definitions[i]).id == id && r.definitions[i].enabled
            && r.entries[id].definition == r.definitions[i]
}

/// After a whole connection every configured extension has exactly one status, and nothing
/// else has one. An extension has an entry exactly where its status says that it is
/// available, and an error exactly where it is not. Only enabled extensions have entries.
#[verifier::rlimit(40)]
pub proof fn connections_are_complete(
    schema_version: u32,
    list: Seq<ExtensionView>,
    located: Seq<bool>,
    answers: spec_fn(Seq<char>) -> Result<MetadataView, Fault>,
)
    requires
        config_fault(schema_version, list, located) is None,
    ensures
        ({
            let r = connection(list, answers);
            &&& r.definitions == list
            &&& r.statuses.len() == list.len()
            &&& forall|a: int, b: int|
                0 <= a < b < r.statuses.len() ==> (#[trigger] r.statuses[a]).id != (#[trigger] r.statuses[b]).id
            &&& forall|i: int| 0 <= i < list.len() ==> has_status(r.statuses, #[trigger] list[i])
            &&& forall|k: int| 0 <= k < r.statuses.len() ==> agrees(r, #[trigger] r.statuses[k])
            &&& forall|id: Seq<char>| #[trigger] r.entries.contains_key(id) ==> configured(r, id)
        }),
{
    ids_are_distinct(schema_version, list, located);
    let n = list.len();
    let plugins = enabled_of(list, ExtensionKind::Plugin, n);
    let nodes = enabled_of(list, ExtensionKind::Node, n);
    let order = connect_sequence(list);
    let rest = disabled_of(list, n);
    enabled_are_picked(list, ExtensionKind::Plugin, n);
    enabled_are_picked(list, ExtensionKind::Node, n);
    disabled_are_left_out(list, n);
    assert(distinct(order)) by {
        assert forall|a: int, b: int| 0 <= a < b < order.len() implies (#[trigger] order[a]).id != (#[trigger] order[b]).id by {
            if b < plugins.len() {
                assert(plugins[a].id != plugins[b].id);
            } else if a >= plugins.len() {
                assert(nodes[a - plugins.len()].id != nodes[b - plugins.len()].id);
            } else {
                assert(picked(list, ExtensionKind::Plugin, n, plugins[a]));
                assert(picked(list, ExtensionKind::Node, n, nodes[b - plugins.len()]));
                apart(list, plugins[a], nodes[b - plugins.len()]);
            }
        }
    }
    asking_answers_each(list, order, answers);
    let asked = all_asked(unconnected(list), order, answers);
    let r = connection(list, answers);
    assert forall|k: int| 0 <= k < order.len() implies enabled_in(list, #[trigger] order[k]) by {
        if k < plugins.len() {
            assert(picked(list, ExtensionKind::Plugin, n, plugins[k]));
        } else {
            assert(picked(list, ExtensionKind::Node, n, nodes[k - plugins.len()]));
        }
    }
    assert forall|a: int, b: int| 0 <= a < b < r.statuses.len() implies (#[trigger] r.statuses[a]).id != (
    #[trigger] r.statuses[b]).id by {
        if b < order.len() {
            assert(asked.statuses[a].id == order[a].id && asked.statuses[b].id == order[b].id);
            assert(order[a].id != order[b].id);
        } else if a >= order.len() {
            assert(rest[a - order.len()].id != rest[b - order.len()].id);
        } else {
            assert(asked.statuses[a].id == order[a].id);
            assert(enabled_in(list, order[a]));
            let i = choose|i: int| 0 <= i < n && (#[trigger] list[i]) == order[a] && list[i].enabled;
            disabled_differ(list, i, rest[b - order.len()]);
        }
    }
    assert forall|i: int| 0 <= i < list.len() implies has_status(r.statuses, #[trigger] list[i]) by {
        if list[i].enabled {
            let at = enabled_is_ordered(list, i);
            assert(asked.statuses[at].id == order[at].id);
            assert(r.statuses[at] == asked.statuses[at]);
        } else {
            let k = choose|k: int| 0 <= k < rest.len() && (#[trigger] rest[k]).id == list[i].id && rest[k].kind == list[i].kind;
            assert(r.statuses[order.len() + k] == rest[k]);
        }
    }
    assert forall|k: int| 0 <= k < r.statuses.len() implies agrees(r, #[trigger] r.statuses[k]) by {
        if k < order.len() {
            assert(r.statuses[k] == asked.statuses[k]);
        } else {
            let s = rest[k - order.len()];
            assert(r.statuses[k] == s);
            assert(left_out(list, n, s));
            if r.entries.contains_key(s.id) {
                let j = choose|j: int| 0 <= j < order.len() && (#[trigger] order[j]).id == s.id && asked.entries[s.id].definition
                    == order[j];
                assert(enabled_in(list, order[j]));
                let i = choose|i: int| 0 <= i < n && (#[trigger] list[i]) == order[j] && list[i].enabled;
                disabled_differ(list, i, s);
            }
        }
    }
    assert forall|id: Seq<char>| #[trigger] r.entries.contains_key(id) implies configured(r, id) by {
        let j = choose|j: int| 0 <= j < order.len() && (#[trigger] order[j]).id == id && asked.entries[id].definition == order[j];
        assert(enabled_in(list, order[j]));
        let i = choose|i: int| 0 <= i < n && (#[trigger] list[i]) == order[j] && list[i].enabled;
        assert(r.definitions[i].id == id);
    }
}

/// In a valid configuration no two extensions have one id.
proof fn ids_are_distinct(schema_version: u32, list: Seq<ExtensionView>, located: Seq<bool>)
    requires
        config_fault(schema_version, list, located) is None,
    ensures
        distinct(list),
{
    let f = |k: int| extension_fault(list, located, k);
    earliest_none(list.len(), f);
    assert forall|i: int, j: int| 0 <= i < j < list.len() implies (#[trigger] list[i]).id != (#[trigger] list[j]).id by {
        assert(f(j) is None);
        assert(!id_repeats(list, j));
    }
}

proof fn apart(list: Seq<ExtensionView>, a: ExtensionView, b: ExtensionView)
    requires
        distinct(list),
        picked(list, ExtensionKind::Plugin, list.len(), a),
        picked(list, ExtensionKind::Node, list.len(), b),
    ensures
        a.id != b.id,
{
    let i = choose|i: int| 0 <= i < list.len() && (#[trigger] list[i]) == a && a.enabled && a.kind == ExtensionKind::Plugin;
    let j = choose|j: int| 0 <= j < list.len() && (#[trigger] list[j]) == b && b.enabled && b.kind == ExtensionKind::Node;
    if i < j {
        assert(list[i].id != list[j].id);
    } else {
        assert(list[j].id != list[i].id);
    }
}

proof fn disabled_differ(list: Seq<ExtensionView>, i: int, s: StatusView)
    requires
        distinct(list),
        0 <= i < list.len(),
        list[i].enabled,
        left_out(list, list.len(), s),
    ensures
        s.id != list[i].id,
{
    let j = choose|j: int|
        0 <= j < list.len() && !(#[trigger] list[j]).enabled && s.id == list[j].id && s.kind == list[j].kind && !s.available
            && s.error is Some;
    if i < j {
        assert(list[i].id != list[j].id);
    } else {
        assert(list[j].id != list[i].id);
    }
}

proof fn enabled_is_ordered(list: Seq<ExtensionView>, i: int) -> (at: int)
    requires
        distinct(list),
        0 <= i < list.len(),
        list[i].enabled,
    ensures
        0 <= at < connect_sequence(list).len(),
        connect_sequence(list)[at] == list[i],
{
    let n = list.len();
    let plugins = enabled_of(list, ExtensionKind::Plugin, n);
    let nodes = enabled_of(list, ExtensionKind::Node, n);
    enabled_are_picked(list, ExtensionKind::Plugin, n);
    enabled_are_picked(list, ExtensionKind::Node, n);
    if list[i].kind == ExtensionKind::Plugin {
        assert(picked(list, ExtensionKind::Plugin, n, list[i]));
        choose|k: int| 0 <= k < plugins.len() && plugins[k] == list[i]
    } else {
        assert(picked(list, ExtensionKind::Node, n, list[i]));
        let k = choose|k: int| 0 <= k < nodes.len() && nodes[k] == list[i];
        assert(connect_sequence(list)[plugins.len() + k] == nodes[k]);
        plugins.len() + k
    }
}

proof fn found_contract(contracts: Seq<ContractView>, id: Seq<char>, version: u32)
    ensures
        match declared(contracts, id, version) {
            Some(c) => exists|i: int|
                0 <= i < contracts.len() && #[trigger] contracts[i] == c && c.id == id && c.version == version && forall|k: int|
                    0 <= k < i ==> !((#[trigger] contracts[k]).id == id && contracts[k].version == version),
            None => forall|k: int|
                0 <= k < contracts.len() ==> !((#[trigger] contracts[k]).id == id && contracts[k].version == version),
        },
    decreases contracts.len(),
{
    if contracts.len() > 0 {
        if contracts[0].id == id && contracts[0].version == version {
            assert(contracts[0] == declared(contracts, id, version)->0);
        } else {
            let rest = contracts.drop_first();
            found_contract(rest, id, version);
            match declared(rest, id, version) {
                Some(c) => {
                    let i = choose|i: int|
                        0 <= i < rest.len() && #[trigger] rest[i] == c && c.id == id && c.version == version && forall|k: int|
                            0 <= k < i ==> !((#[trigger] rest[k]).id == id && rest[k].version == version);
                    assert(contracts[i + 1] == c);
                    assert forall|k: int| 0 <= k < i + 1 implies !((#[trigger] contracts[k]).id == id && contracts[k].version
                        == version) by {
                        if k > 0 {
                            assert(rest[k - 1] == contracts[k]);
                        }
                    }
                },
                None => {
                    assert forall|k: int| 0 <= k < contracts.len() implies !((#[trigger] contracts[k]).id == id
                        && contracts[k].version == version) by {
                        if k > 0 {
                            assert(rest[k - 1] == contracts[k]);
                        }
                    }
                },
            }
        }
    }
}

proof fn found_method(methods: Seq<MethodView>, name: Seq<char>)
    ensures
        match method_named(methods, name) {
            Some(m) => m.name == name && methods.contains(m),
            None => forall|k: int| 0 <= k < methods.len() ==> (#[trigger] methods[k]).name != name,
        },
    decreases methods.len(),
{
    if methods.len() > 0 {
        if methods[0].name == name {
            assert(methods[0] == method_named(methods, name)->0);
        } else {
            let rest = methods.drop_first();
            found_method(rest, name);
            match method_named(rest, name) {
                Some(m) => {
                    let k = choose|k: int| 0 <= k < rest.len() && rest[k] == m;
                    assert(methods[k + 1] == m);
                },
                None => {
                    assert forall|k: int| 0 <= k < methods.len() implies (#[trigger] methods[k]).name != name by {
                        if k > 0 {
                            assert(rest[k - 1] == methods[k]);
                        }
                    }
                },
            }
        }
    }
}

/// A generic call goes out only to an extension that is registered, for a method that the
/// extension declared under that contract and version and that the configuration lists, that
/// only reads, of a contract outside the host's own, with parameters that the declared schema
/// accepts, and only where there is room.
pub proof fn reads_go_to_declared_methods(
    r: RegistryView,
    id: Seq<char>,
    contract: Seq<char>,
    version: u32,
    method: Seq<char>,
    params: Tree,
    room: bool,
)
    requires
        read_call(r, id, contract, version, method, params, room) is Ok,
    ensures
        ({
            let m = read_call(r, id, contract, version, method, params, room)->Ok_0;
            let e = r.entries[id];
            &&& room
            &&& r.entries.contains_key(id)
            &&& e.definition.allow_calls.contains(AllowedView { contract, version, method })
            &&& exists|i: int|
                0 <= i < e.metadata.contracts.len() && (#[trigger] e.metadata.contracts[i]).id == contract
                    && e.metadata.contracts[i].version == version && e.metadata.contracts[i].methods.contains(m)
            &&& m.name == method
            &&& m.read_only
            &&& !starts_with(contract, "recuvora."@)
            &&& check_fault(m.input_schema, params) is None
        }),
{
    let e = r.entries[id];
    found_contract(e.metadata.contracts, contract, version);
    let c = declared(e.metadata.contracts, contract, version)->0;
    found_method(c.methods, method);
}

/// A method that is registered, listed and only reads can be called with parameters that its
/// schema accepts while there is room; without room the call is refused for that reason alone.
pub proof fn listed_reads_are_possible(
    r: RegistryView,
    id: Seq<char>,
    i: int,
    j: int,
    params: Tree,
)
    requires
        r.entries.contains_key(id),
        0 <= i < r.entries[id].metadata.contracts.len(),
        0 <= j < r.entries[id].metadata.contracts[i].methods.len(),
        ({
            let e = r.entries[id];
            let c = e.metadata.contracts[i];
            let m = c.methods[j];
            &&& forall|k: int|
                0 <= k < i ==> !((#[trigger] e.metadata.contracts[k]).id == c.id && e.metadata.contracts[k].version == c.version)
            &&& forall|k: int| 0 <= k < j ==> (#[trigger] c.methods[k]).name != m.name
            &&& e.definition.allow_calls.contains(AllowedView { contract: c.id, version: c.version, method: m.name })
            &&& m.read_only
            &&& !starts_with(c.id, "recuvora."@)
            &&& check_fault(m.input_schema, params) is None
        }),
    ensures
        ({
            let c = r.entries[id].metadata.contracts[i];
            let m = c.methods[j];
            &&& read_call(r, id, c.id, c.version, m.name, params, true) == Ok::<MethodView, Fault>(m)
            &&& read_call(r, id, c.id, c.version, m.name, params, false) is Err
        }),
{
    let e = r.entries[id];
    let c = e.metadata.contracts[i];
    let m = c.methods[j];
    first_contract(e.metadata.contracts, i);
    first_method(c.methods, j);
}

proof fn first_contract(contracts: Seq<ContractView>, i: int)
    requires
        0 <= i < contracts.len(),
        forall|k: int|
            0 <= k < i ==> !((#[trigger] contracts[k]).id == contracts[i].id && contracts[k].version == contracts[i].version),
    ensures
        declared(contracts, contracts[i].id, contracts[i].version) == Some(contracts[i]),
    decreases i,
{
    if i > 0 {
        let rest = contracts.drop_first();
        assert(rest[i - 1] == contracts[i]);
        assert forall|k: int| 0 <= k < i - 1 implies !((#[trigger] rest[k]).id == rest[i - 1].id && rest[k].version
            == rest[i - 1].version) by {
            assert(rest[k] == contracts[k + 1]);
        }
        first_contract(rest, i - 1);
        assert(!(contracts[0].id == contracts[i].id && contracts[0].version == contracts[i].version));
    }
}

proof fn first_method(methods: Seq<MethodView>, j: int)
    requires
        0 <= j < methods.len(),
        forall|k: int| 0 <= k < j ==> (#[trigger] methods[k]).name != methods[j].name,
    ensures
        method_named(methods, methods[j].name) == Some(methods[j]),
    decreases j,
{
    if j > 0 {
        let rest = methods.drop_first();
        assert(rest[j - 1] == methods[j]);
        assert forall|k: int| 0 <= k < j - 1 implies (#[trigger] rest[k]).name != rest[j - 1].name by {
            assert(rest[k] == methods[k + 1]);
        }
        first_method(rest, j - 1);
        assert(methods[0].name != methods[j].name);
    }
}

/// A harness is called only on a node that is registered, offers the harness contract in its
/// first version with that method, and is listed for it.
pub proof fn harness_calls_go_to_nodes(r: RegistryView, id: Seq<char>, method: Seq<char>, room: bool)
    requires
        harness_fault(r, id, method, room) is None,
    ensures
        room,
        r.entries.contains_key(id),
        r.entries[id].definition.kind == ExtensionKind::Node,
        r.entries[id].definition.allow_calls.contains(
            AllowedView { contract: "recuvora.harness"@, version: 1, method },
        ),
        exists|i: int|
            0 <= i < r.entries[id].metadata.contracts.len() && (#[trigger] r.entries[id].metadata.contracts[i]).id
                == "recuvora.harness"@ && r.entries[id].metadata.contracts[i].version == 1,
{
    found_contract(r.entries[id].metadata.contracts, "recuvora.harness"@, 1);
}

/// A callback reads only nodes that the configuration names and that are there.
pub proof fn callbacks_read_only_named_nodes(r: RegistryView, allowed: Seq<Seq<char>>, node: Seq<char>)
    ensures
        may_read(r, allowed, node) <==> allowed.contains(node) && r.entries.contains_key(node)
            && r.entries[node].metadata.kind == ExtensionKind::Node,
{
}

proof fn enabled_are_chosen(list: Seq<ExtensionView>, kind: ExtensionKind, n: nat)
    requires
        n <= list.len(),
    ensures
        forall|i: int|
            0 <= i < enabled_of(list, kind, n).len() ==> (#[trigger] enabled_of(list, kind, n)[i]).kind == kind && enabled_of(
                list,
                kind,
                n,
            )[i].enabled && list.contains(enabled_of(list, kind, n)[i]),
        forall|i: int|
            0 <= i < n && (#[trigger] list[i]).enabled && list[i].kind == kind ==> enabled_of(list, kind, n).contains(list[i]),
    decreases n,
{
    if n > 0 {
        enabled_are_chosen(list, kind, (n - 1) as nat);
        let was = enabled_of(list, kind, (n - 1) as nat);
        let now = enabled_of(list, kind, n);
        assert forall|i: int| 0 <= i < n && (#[trigger] list[i]).enabled && list[i].kind == kind implies now.contains(list[i]) by {
            if i < n - 1 {
                let k = choose|k: int| 0 <= k < was.len() && was[k] == list[i];
                assert(now[k] == list[i]);
            } else {
                assert(now[now.len() - 1] == list[i]);
            }
        }
        assert forall|i: int| 0 <= i < now.len() implies (#[trigger] now[i]).kind == kind && now[i].enabled && list.contains(
            now[i],
        ) by {
            if i < was.len() {
                assert(was[i] == now[i]);
            } else {
                assert(list[n - 1] == now[i]);
            }
        }
    }
}

/// Every enabled extension is asked, no other is, and every plugin before every node.
pub proof fn plugins_are_asked_before_nodes(list: Seq<ExtensionView>)
    ensures
        forall|i: int|
            0 <= i < connect_sequence(list).len() ==> (#[trigger] connect_sequence(list)[i]).enabled && list.contains(
                connect_sequence(list)[i],
            ),
        forall|i: int|
            0 <= i < list.len() && (#[trigger] list[i]).enabled ==> connect_sequence(list).contains(list[i]),
        forall|i: int, j: int|
            0 <= i < j < connect_sequence(list).len() && (#[trigger] connect_sequence(list)[i]).kind == ExtensionKind::Node
                ==> (#[trigger] connect_sequence(list)[j]).kind == ExtensionKind::Node,
{
    enabled_are_chosen(list, ExtensionKind::Plugin, list.len());
    enabled_are_chosen(list, ExtensionKind::Node, list.len());
    let p = enabled_of(list, ExtensionKind::Plugin, list.len());
    let q = enabled_of(list, ExtensionKind::Node, list.len());
    let all = connect_sequence(list);
    assert forall|i: int| 0 <= i < all.len() implies (#[trigger] all[i]).enabled && list.contains(all[i]) && (if i < p.len() {
        all[i].kind == ExtensionKind::Plugin
    } else {
        all[i].kind == ExtensionKind::Node
    }) by {
        if i < p.len() {
            assert(all[i] == p[i]);
        } else {
            assert(all[i] == q[i - p.len()]);
        }
    }
    assert forall|i: int| 0 <= i < list.len() && (#[trigger] list[i]).enabled implies all.contains(list[i]) by {
        if list[i].kind == ExtensionKind::Plugin {
            let k = choose|k: int| 0 <= k < p.len() && p[k] == list[i];
            assert(all[k] == list[i]);
        } else {
            let k = choose|k: int| 0 <= k < q.len() && q[k] == list[i];
            assert(all[p.len() + k] == list[i]);
        }
    }
}

/// A plugin that joins declared every contract within a namespace of its own: the contract has
/// the name of the namespace, or that name, a dot and more.
pub proof fn plugins_stay_in_their_namespaces(r: RegistryView, d: ExtensionView, m: MetadataView, i: int)
    requires
        d.kind == ExtensionKind::Plugin,
        staged(r.contracts, d, m) is Ok,
        0 <= i < m.contracts.len(),
    ensures
        exists|k: int|
            0 <= k < d.namespaces.len() && (m.contracts[i].id == #[trigger] d.namespaces[k] || starts_with(
                m.contracts[i].id,
                d.namespaces[k] + "."@,
            )),
        registered(r.contracts, m.contracts[i].id, m.contracts[i].version) is None,
        owner_of(staged(r.contracts, d, m)->Ok_0, m.contracts[i].id, m.contracts[i].version) == Some(d.id),
{
    staged_one(r.contracts, d, m, m.contracts.len(), i);
}

proof fn staged_one(list: Seq<OwnedView>, d: ExtensionView, m: MetadataView, n: nat, i: int)
    requires
        plugin_staged(list, d, m, n) is Ok,
        0 <= i < n <= m.contracts.len(),
    ensures
        in_namespaces(m.contracts[i].id, d.namespaces),
        registered(list, m.contracts[i].id, m.contracts[i].version) is None,
        owner_of(plugin_staged(list, d, m, n)->Ok_0, m.contracts[i].id, m.contracts[i].version) == Some(d.id),
    decreases n,
{
    let before = plugin_staged(list, d, m, (n - 1) as nat)->Ok_0;
    let after = plugin_staged(list, d, m, n)->Ok_0;
    let c = m.contracts[i];
    assert(after.drop_last() =~= before);
    if i < n - 1 {
        staged_one(list, d, m, (n - 1) as nat, i);
        let last = m.contracts[n - 1];
        if last.id == c.id && last.version == c.version {
            assert(registered(before, last.id, last.version) is Some);
        }
    } else {
        staged_keeps(list, d, m, (n - 1) as nat, c.id, c.version);
    }
}

proof fn staged_keeps(list: Seq<OwnedView>, d: ExtensionView, m: MetadataView, n: nat, id: Seq<char>, version: u32)
    requires
        plugin_staged(list, d, m, n) is Ok,
        registered(plugin_staged(list, d, m, n)->Ok_0, id, version) is None,
    ensures
        registered(list, id, version) is None,
    decreases n,
{
    if n > 0 {
        let before = plugin_staged(list, d, m, (n - 1) as nat)->Ok_0;
        let after = plugin_staged(list, d, m, n)->Ok_0;
        assert(after.drop_last() =~= before);
        staged_keeps(list, d, m, (n - 1) as nat, id, version);
    }
}

/// An extension that answered and whose declaration was taken is available and registered with
/// it; one that did not answer is not, and says why.
pub proof fn availability_follows_the_answer(r: RegistryView, d: ExtensionView, probe: Result<MetadataView, Fault>)
    ensures
        ({
            let after = connected(r, d, probe);
            let status = after.statuses.last();
            &&& after.statuses.len() == r.statuses.len() + 1
            &&& status.id == d.id && status.kind == d.kind
            &&& probe is Err ==> !status.available
            &&& !status.available ==> status.error is Some && after.entries == r.entries
            &&& status.available ==> {
                &&& status.error is None
                &&& after.entries.contains_key(d.id)
                &&& after.entries[d.id].definition == d
                &&& after.entries[d.id].metadata == probe->Ok_0
            }
            &&& forall|other: Seq<char>|
                other != d.id ==> (#[trigger] after.entries.contains_key(other) <==> r.entries.contains_key(other))
        }),
{
}

} // verus!
