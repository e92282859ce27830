//! Which extensions are accepted, what they may declare, and what a call to them that was lost
//! counts as.
use super::registry::{callable, dispatched, finished, input_fault, view_input, view_offer, EntryView, RegistryView};
use super::{config_fault, extension_fault, metadata_fault, method_fault, overlap, AllowedView, ExtensionView};
use crate::faults::earliest_none;
use crate::framework::calls::DispatchFault;
use crate::json::{alike, Tree};
use crate::protocol::schema::check_fault;
use crate::protocol::{
    command_fault, is_id, same_contract, same_metadata, CommandView, ContractView, ExtensionKind, MetadataView,
};
use crate::text::{byte_len, starts_with};
use vstd::prelude::*;

verus! {

/// A program is accepted exactly if it and its directory are there, with at most 32 overrides
/// of its environment and 64 arguments, all of them bounded and without a zero character.
pub proof fn accepted_commands(c: CommandView, located: bool)
    ensures
        command_fault(c, located) is None <==> {
            &&& located
            &&& c.env.len() <= 32 && c.args.len() <= 64
            &&& forall|i: int|
                0 <= i < c.env.len() ==> 0 < (#[trigger] c.env[i]).0.len() && byte_len(c.env[i].0) <= 128 && !c.env[i].0.contains(
                    '=',
                ) && !c.env[i].0.contains('\0') && byte_len(c.env[i].1) <= 8192 && !c.env[i].1.contains('\0')
            &&& forall|i: int|
                0 <= i < c.args.len() ==> byte_len(#[trigger] c.args[i]) <= 8192 && !c.args[i].contains('\0')
        },
        command_fault(c, located) is Some ==> command_fault(c, located)->0 is Configuration,
{
    if command_fault(c, located) is None {
        assert forall|i: int| 0 <= i < c.env.len() implies 0 < (#[trigger] c.env[i]).0.len() && byte_len(c.env[i].0) <= 128
            && !c.env[i].0.contains('=') && !c.env[i].0.contains('\0') && byte_len(c.env[i].1) <= 8192 && !c.env[i].1.contains(
            '\0',
        ) by {
            assert(crate::protocol::env_entry_valid(c.env[i].0, c.env[i].1));
        }
        assert forall|i: int| 0 <= i < c.args.len() implies byte_len(#[trigger] c.args[i]) <= 8192 && !c.args[i].contains(
            '\0',
        ) by {
            assert(crate::protocol::argument_valid(c.args[i]));
        }
    }
}

/// Accepted extensions have identifiers that differ, an accepted program, and only plugins
/// have namespaces, none of them the host's own; what they may call and which nodes they may
/// read is named by identifiers.
pub proof fn accepted_extensions(schema_version: u32, list: Seq<ExtensionView>, located: Seq<bool>, i: int, j: int)
    requires
        config_fault(schema_version, list, located) is None,
        0 <= i < list.len(),
    ensures
        schema_version == 1,
        list.len() <= 64,
        ({
            let d = list[i];
            &&& is_id(d.id)
            &&& 0 <= j < i ==> list[j].id != d.id
            &&& i < located.len() && located[i] && command_fault(d.command, true) is None
            &&& d.namespaces.len() <= 16 && d.allow_calls.len() <= 128 && d.allow_nodes.len() <= 64
            &&& d.namespaces.len() > 0 ==> d.kind == ExtensionKind::Plugin
            &&& 0 <= j < d.namespaces.len() ==> is_id(d.namespaces[j]) && d.namespaces[j] != "recuvora"@ && !starts_with(
                d.namespaces[j],
                "recuvora."@,
            )
            &&& 0 <= j < d.allow_calls.len() ==> is_id(d.allow_calls[j].contract) && is_id(d.allow_calls[j].method)
                && d.allow_calls[j].version > 0
            &&& 0 <= j < d.allow_nodes.len() ==> is_id(d.allow_nodes[j])
        }),
{
    let f = |k: int| extension_fault(list, located, k);
    earliest_none(list.len(), f);
    assert(f(i) is None);
    let d = list[i];
    let g = |k: int| super::namespace_fault(list, i, k);
    earliest_none(d.namespaces.len(), g);
    assert(!super::id_repeats(list, i));
    if d.namespaces.len() > 0 {
        assert(g(0) is None);
    }
    if 0 <= j < d.namespaces.len() {
        assert(g(j) is None);
    }
    if 0 <= j < d.allow_calls.len() {
        assert(super::allow_valid(d.allow_calls[j]));
    }
}

/// Two namespaces overlap exactly if they are the same or one lies below the other.
pub proof fn namespaces_overlap_below_each_other(a: Seq<char>, b: Seq<char>)
    ensures
        overlap(a, a),
        overlap(a, a + "."@ + b) && overlap(a + "."@ + b, a),
        overlap(a, b) <==> overlap(b, a),
        overlap(a, b) && a.len() == b.len() ==> a == b,
{
    let whole = a + "."@ + b;
    reveal_strlit(".");
    assert("."@.len() == 1);
    assert(whole.subrange(0, (a + "."@).len() as int) =~= a + "."@);
}

/// What an extension declares is accepted only within its limits: contracts and methods with
/// identifiers that differ, schemas that are accepted, and, of a plugin, methods that only
/// read, but for the one that describes its view.
pub proof fn accepted_declarations(kind: ExtensionKind, m: MetadataView, i: int, j: int)
    requires
        metadata_fault(kind, m) is None,
        0 <= i < m.contracts.len(),
        0 <= j < m.contracts[i].methods.len(),
    ensures
        m.contracts.len() <= 32 && m.capabilities.len() <= 64 && m.workspaces.len() <= 64,
        is_id(m.contracts[i].id) && m.contracts[i].version > 0,
        1 <= m.contracts[i].methods.len() <= 32,
        is_id(m.contracts[i].methods[j].name),
        crate::protocol::schema::schema_fault(m.contracts[i].methods[j].input_schema, 0) is None,
        crate::protocol::schema::schema_fault(m.contracts[i].methods[j].output_schema, 0) is None,
        kind == ExtensionKind::Plugin && !m.contracts[i].methods[j].read_only ==> m.contracts[i].methods[j].name
            == "describe_monitoring_view"@ && m.capabilities.contains("recuvora.monitoring_view.v1"@),
        forall|k: int| 0 <= k < j ==> (#[trigger] m.contracts[i].methods[k]).name != m.contracts[i].methods[j].name,
        forall|k: int|
            0 <= k < i ==> (#[trigger] m.contracts[k]).id != m.contracts[i].id || m.contracts[k].version
                != m.contracts[i].version,
        forall|k: int| 0 <= k < m.workspaces.len() ==> is_id(#[trigger] m.workspaces[k]),
        forall|a: int, b: int| 0 <= a < b < m.workspaces.len() ==> #[trigger] m.workspaces[a] != #[trigger] m.workspaces[b],
{
    let f = |k: int| super::contract_fault(kind, m, k);
    earliest_none(m.contracts.len(), f);
    assert(f(i) is None);
    let c = m.contracts[i];
    let g = |k: int| method_fault(kind, m, i, k);
    earliest_none(c.methods.len(), g);
    assert(g(j) is None);
    assert(!super::method_repeats(c.methods, j));
    assert(!super::contract_repeats(m.contracts, i));
    assert forall|a: int, b: int| 0 <= a < b < m.workspaces.len() implies #[trigger] m.workspaces[a]
        != #[trigger] m.workspaces[b] by {
        assert(!super::name_repeats(m.workspaces, b));
    }
}

/// Two declarations are the same only if they agree in everything, in the same order.
pub proof fn same_declarations_agree(a: MetadataView, b: MetadataView, i: int, j: int)
    requires
        same_metadata(a, b),
    ensures
        a.protocol_version == b.protocol_version && a.id == b.id && a.kind == b.kind,
        a.capabilities == b.capabilities && a.workspaces == b.workspaces,
        a.contracts.len() == b.contracts.len(),
        0 <= i < a.contracts.len() ==> a.contracts[i].id == b.contracts[i].id && a.contracts[i].version
            == b.contracts[i].version && a.contracts[i].methods.len() == b.contracts[i].methods.len(),
        0 <= i < a.contracts.len() && 0 <= j < a.contracts[i].methods.len() ==> {
            let x = a.contracts[i].methods[j];
            let y = b.contracts[i].methods[j];
            &&& x.name == y.name && x.read_only == y.read_only
            &&& alike(x.input_schema, y.input_schema) && alike(x.output_schema, y.output_schema)
        },
{
    if 0 <= i < a.contracts.len() {
        assert(same_contract(a.contracts[i], b.contracts[i]));
        if 0 <= j < a.contracts[i].methods.len() {
            assert(crate::protocol::same_method(a.contracts[i].methods[j], b.contracts[i].methods[j]));
        }
    }
}

/// A call needs its place in the configuration's list, whatever the extension declares.
pub proof fn calls_need_their_place_in_the_list(e: EntryView, contract: Seq<char>, version: u32, method: Seq<char>)
    ensures
        callable(e, contract, version, method) is Ok ==> e.definition.allow_calls.contains(
            AllowedView { contract, version, method },
        ),
        callable(e, contract, version, method) is Err ==> callable(e, contract, version, method)->Err_0 is Rejected,
        e.metadata.contracts.len() == 0 ==> callable(e, contract, version, method) is Err,
{
}

/// Parameters are refused exactly if the schema refuses them.
pub proof fn inputs_are_refused_by_their_schema(schema: Tree, params: Tree)
    ensures
        input_fault(schema, params) is None <==> check_fault(schema, params) is None,
        input_fault(schema, params) is Some ==> input_fault(schema, params)->0 is Rejected,
{
}

/// A plugin offers a view only if it says so, with exactly one method that describes it, that
/// only reads, in a contract of its own outside the host's, that takes the fixed input, and
/// that the configuration lists.
pub proof fn offered_views_are_listed(r: RegistryView, id: Seq<char>)
    ensures
        !r.entries.contains_key(id) ==> view_offer(r, id) is Err,
        r.entries.contains_key(id) && !r.entries[id].metadata.capabilities.contains("recuvora.monitoring_view.v1"@)
            ==> view_offer(r, id) is Ok && view_offer(r, id)->Ok_0 is None,
        view_offer(r, id) is Ok && view_offer(r, id)->Ok_0 is Some ==> {
            let e = r.entries[id];
            let g = view_offer(r, id)->Ok_0->0;
            &&& r.entries.contains_key(id)
            &&& e.metadata.capabilities.contains("recuvora.monitoring_view.v1"@)
            &&& e.definition.kind == ExtensionKind::Plugin
            &&& g.extension_id == e.definition.id
            &&& g.contract != "recuvora"@ && !starts_with(g.contract, "recuvora."@)
            &&& e.definition.allow_calls.contains(
                AllowedView { contract: g.contract, version: g.version, method: g.method },
            )
            &&& super::registry::owner_of(r.contracts, g.contract, g.version) == Some(e.definition.id)
            &&& super::registry::descriptors(e.metadata.contracts).len() == 1
            &&& super::registry::descriptors(e.metadata.contracts)[0].1.read_only
            &&& super::registry::descriptors(e.metadata.contracts)[0].1.name == g.method
            &&& check_fault(
                super::registry::descriptors(e.metadata.contracts)[0].1.input_schema,
                view_input(),
            ) is None
        },
{
}

/// What counts as a description of a view: every method of that name, with its contract.
pub proof fn descriptions_are_methods_of_that_name(c: ContractView, contracts: Seq<ContractView>, n: nat)
    requires
        n < c.methods.len(),
    ensures
        super::registry::descriptors(Seq::empty()).len() == 0,
        super::registry::descriptors(contracts.push(c)) == super::registry::descriptors(contracts)
            + super::registry::descriptors_in(c, c.methods.len()),
        c.methods[n as int].name == "describe_monitoring_view"@ ==> super::registry::descriptors_in(c, n + 1)
            == super::registry::descriptors_in(c, n).push((c, c.methods[n as int])),
        c.methods[n as int].name != "describe_monitoring_view"@ ==> super::registry::descriptors_in(c, n + 1)
            == super::registry::descriptors_in(c, n),
{
    assert(contracts.push(c).drop_last() =~= contracts);
}

/// A call whose supervisor was lost may have reached the extension: its outcome is unknown. A
/// call that was not taken at all is only unavailable.
pub proof fn lost_calls_are_unknown(f: DispatchFault)
    ensures
        dispatched(f) is Unknown <==> f is Supervisor,
        !(f is Supervisor) ==> dispatched(f) is Unavailable,
{
}

/// Once all were asked, those that are disabled are shown as such, after the others.
pub proof fn disabled_extensions_are_shown(r: RegistryView, i: int)
    requires
        0 <= i < r.definitions.len(),
        !r.definitions[i].enabled,
    ensures
        exists|k: int|
            r.statuses.len() <= k < finished(r).statuses.len() && (#[trigger] finished(r).statuses[k]).id
                == r.definitions[i].id && !finished(r).statuses[k].available && finished(r).statuses[k].error is Some,
        finished(r).statuses.len() >= r.statuses.len(),
        finished(r).entries == r.entries && finished(r).contracts == r.contracts,
{
    disabled_is_listed(r.definitions, r.definitions.len(), i);
    let more = super::registry::disabled_of(r.definitions, r.definitions.len());
    let m = choose|m: int|
        0 <= m < more.len() && (#[trigger] more[m]).id == r.definitions[i].id && !more[m].available && more[m].error is Some;
    assert(finished(r).statuses[r.statuses.len() + m] == more[m]);
}

proof fn disabled_is_listed(list: Seq<ExtensionView>, n: nat, i: int)
    requires
        0 <= i < n <= list.len(),
        !list[i].enabled,
    ensures
        exists|m: int|
            0 <= m < super::registry::disabled_of(list, n).len() && (#[trigger] super::registry::disabled_of(list, n)[m]).id
                == list[i].id && !super::registry::disabled_of(list, n)[m].available && super::registry::disabled_of(
                list,
                n,
            )[m].error is Some,
    decreases n,
{
    let all = super::registry::disabled_of(list, n);
    if i == n - 1 {
        let m = all.len() - 1;
        assert(all[m].id == list[i].id && !all[m].available && all[m].error is Some);
    } else {
        disabled_is_listed(list, (n - 1) as nat, i);
        let some = super::registry::disabled_of(list, (n - 1) as nat);
        let m = choose|m: int|
            0 <= m < some.len() && (#[trigger] some[m]).id == list[i].id && !some[m].available && some[m].error is Some;
        assert(all[m] == some[m]);
    }
}

} // verus!
