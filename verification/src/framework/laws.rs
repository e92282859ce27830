//! What holds of every runtime.
use super::order::{conflict_at, conflict_fault, conflict_in, missing_at, missing_fault, missing_in};
use super::order::{depends, next_ready, ordering, ready, sorted};
use super::runtime::{
    add_fault, added, key_valid, start_fault, stepped, unpublished_at, Hook, RuntimeView,
};
use super::state::{
    event_fault, holder, is_active, publish_fault, released, resource_fault, revoked, service_fault, topic_fault,
    without_listeners, without_services, ListenerView, SharedView,
};
use super::{Fault, KeyView, LifecycleOptions, ModuleView};
use crate::text::byte_len;
use vstd::prelude::*;

verus! {

/// Every module once, each after all that it depends on.
pub open spec fn respects(graph: Seq<ModuleView>, order: Seq<int>) -> bool {
    &&& order.no_duplicates()
    &&& forall|p: int| 0 <= p < order.len() ==> 0 <= #[trigger] order[p] < graph.len()
    &&& forall|p: int, a: int|
        0 <= p < order.len() && 0 <= a < graph.len() && #[trigger] depends(graph, order[p], a) ==> order.subrange(
            0,
            p,
        ).contains(a)
}

proof fn next_is_ready(graph: Seq<ModuleView>, done: Seq<int>, from: int)
    requires
        0 <= from <= graph.len(),
    ensures
        match next_ready(graph, done, from) {
            Some(i) => from <= i < graph.len() && !done.contains(i) && ready(graph, done, i),
            None => forall|i: int| from <= i < graph.len() ==> done.contains(i) || !ready(graph, done, i),
        },
    decreases graph.len() - from,
{
    if from < graph.len() && !(!done.contains(from) && ready(graph, done, from)) {
        next_is_ready(graph, done, from + 1);
    }
}

proof fn sorting_respects(graph: Seq<ModuleView>, done: Seq<int>)
    requires
        respects(graph, done),
        done.len() <= graph.len(),
    ensures
        match sorted(graph, done) {
            Ok(order) => respects(graph, order) && order.len() == graph.len(),
            Err(stuck) => respects(graph, stuck) && stuck.len() < graph.len() && forall|i: int|
                0 <= i < graph.len() ==> stuck.contains(i) || !ready(graph, stuck, i),
        },
    decreases graph.len() - done.len(),
{
    if done.len() < graph.len() {
        next_is_ready(graph, done, 0);
        if let Some(i) = next_ready(graph, done, 0) {
            let longer = done.push(i);
            assert forall|p: int, a: int|
                0 <= p < longer.len() && 0 <= a < graph.len() && #[trigger] depends(
                    graph,
                    longer[p],
                    a,
                ) implies longer.subrange(0, p).contains(a) by {
                if p < done.len() {
                    assert(longer.subrange(0, p) =~= done.subrange(0, p));
                    assert(depends(graph, done[p], a));
                } else {
                    assert(longer.subrange(0, p) =~= done);
                }
            }
            assert(longer.no_duplicates());
            sorting_respects(graph, longer);
        }
    }
}

/// A start order names every module once, each after all that it depends on.
pub proof fn orders_are_complete(o: LifecycleOptions, representable: bool, graph: Seq<ModuleView>)
    ensures
        ordering(o, representable, graph) is Ok ==> respects(graph, ordering(o, representable, graph)->Ok_0) && ordering(
            o,
            representable,
            graph,
        )->Ok_0.len() == graph.len() && forall|p: int|
            0 <= p < graph.len() ==> (#[trigger] ordering(o, representable, graph)->Ok_0[p]) < graph.len(),
{
    sorting_respects(graph, Seq::empty());
}

proof fn within(graph: Seq<ModuleView>, order: Seq<int>, stuck: Seq<int>, p: int)
    requires
        respects(graph, order),
        forall|i: int| 0 <= i < graph.len() ==> stuck.contains(i) || !ready(graph, stuck, i),
        0 <= p <= order.len(),
    ensures
        forall|q: int| 0 <= q < p ==> stuck.contains(#[trigger] order[q]),
    decreases p,
{
    if p > 0 {
        within(graph, order, stuck, p - 1);
        let i = order[p - 1];
        if !stuck.contains(i) {
            assert(!ready(graph, stuck, i));
            let a = choose|a: int| 0 <= a < graph.len() && #[trigger] depends(graph, i, a) && !stuck.contains(a);
            assert(order.subrange(0, p - 1).contains(a));
            let part = order.subrange(0, p - 1);
            let q = choose|q: int| 0 <= q < part.len() && part[q] == a;
            assert(order[q] == a);
        }
    }
}

/// A list of as many distinct numbers as there are below a bound holds all of them.
proof fn covers(list: Seq<int>, n: nat)
    requires
        list.no_duplicates(),
        list.len() == n,
        forall|p: int| 0 <= p < list.len() ==> 0 <= #[trigger] list[p] < n,
    ensures
        forall|i: int| 0 <= i < n ==> list.contains(i),
{
    list.unique_seq_to_set();
    let range = vstd::set_lib::set_int_range(0, n as int);
    vstd::set_lib::lemma_int_range(0, n as int);
    assert(list.to_set().subset_of(range));
    vstd::seq_lib::seq_to_set_is_finite(list);
    vstd::set_lib::lemma_subset_equality(list.to_set(), range);
    assert forall|i: int| 0 <= i < n implies list.contains(i) by {
        assert(range.contains(i));
        assert(list.to_set().contains(i));
    }
}

/// A cycle is reported only where no order of the modules puts every one of them after
/// all that it depends on.
pub proof fn cycles_have_no_order(o: LifecycleOptions, representable: bool, graph: Seq<ModuleView>, order: Seq<int>)
    requires
        ordering(o, representable, graph) is Err,
        ordering(o, representable, graph)->Err_0 is DependencyCycle,
    ensures
        !(respects(graph, order) && order.len() == graph.len()),
{
    if conflict_fault(graph) is Some {
        let i = crate::faults::earliest_item(graph.len(), |i: int| conflict_in(graph, i));
        let j = crate::faults::earliest_item(graph[i].provides.len(), |j: int| conflict_at(graph, i, j));
    }
    if missing_fault(graph) is Some {
        let i = crate::faults::earliest_item(graph.len(), |i: int| missing_in(graph, i));
        let j = crate::faults::earliest_item(graph[i].required.len(), |j: int| missing_at(graph, i, j));
    }
    sorting_respects(graph, Seq::empty());
    if respects(graph, order) && order.len() == graph.len() {
        if let Err(stuck) = sorted(graph, Seq::empty()) {
            within(graph, order, stuck, order.len() as int);
            covers(order, graph.len());
            // All modules would be among the fewer ones that started.
            let range = vstd::set_lib::set_int_range(0, graph.len() as int);
            vstd::set_lib::lemma_int_range(0, graph.len() as int);
            stuck.unique_seq_to_set();
            vstd::seq_lib::seq_to_set_is_finite(stuck);
            assert forall|i: int| range.contains(i) implies stuck.to_set().contains(i) by {
                assert(order.contains(i));
                let p = choose|p: int| 0 <= p < order.len() && order[p] == i;
                assert(stuck.contains(order[p]));
            }
            assert(range.subset_of(stuck.to_set()));
            vstd::set_lib::lemma_len_subset(range, stuck.to_set());
        }
    }
}

proof fn no_service_left(services: Seq<(KeyView, Seq<char>)>, owner: Seq<char>)
    ensures
        forall|i: int|
            0 <= i < without_services(services, owner).len() ==> (#[trigger] without_services(services, owner)[i]).1 != owner,
    decreases services.len(),
{
    if services.len() > 0 {
        let front = without_services(services.drop_last(), owner);
        no_service_left(services.drop_last(), owner);
        assert forall|i: int| 0 <= i < without_services(services, owner).len() implies (#[trigger] without_services(
            services,
            owner,
        )[i]).1 != owner by {
            if i < front.len() {
                assert(front[i].1 != owner);
            }
        }
    }
}

proof fn no_listener_left(listeners: Seq<ListenerView>, owner: Seq<char>)
    ensures
        forall|i: int|
            0 <= i < without_listeners(listeners, owner).len() ==> (#[trigger] without_listeners(
                listeners,
                owner,
            )[i]).owner != owner,
    decreases listeners.len(),
{
    if listeners.len() > 0 {
        let front = without_listeners(listeners.drop_last(), owner);
        no_listener_left(listeners.drop_last(), owner);
        assert forall|i: int| 0 <= i < without_listeners(listeners, owner).len() implies (#[trigger] without_listeners(
            listeners,
            owner,
        )[i]).owner != owner by {
            if i < front.len() {
                assert(front[i].owner != owner);
            }
        }
    }
}

/// Once its resources are taken, an instance owns no service and no subscription, and
/// takes no work.
pub proof fn released_instances_own_nothing(s: SharedView, id: Seq<char>)
    ensures
        !is_active(released(s, id), id),
        forall|i: int| 0 <= i < released(s, id).services.len() ==> (#[trigger] released(s, id).services[i]).1 != id,
        forall|i: int| 0 <= i < released(s, id).listeners.len() ==> (#[trigger] released(s, id).listeners[i]).owner != id,
{
    no_service_left(s.services, id);
    no_listener_left(s.listeners, id);
}

/// Nothing is published, resolved or counted for an instance that stopped.
pub proof fn stopped_instances_do_nothing(s: SharedView, id: Seq<char>, key: KeyView)
    ensures
        publish_fault(revoked(s, id), id, key) == Some(Fault::InstanceInactive(id)),
        service_fault(revoked(s, id), id, key) == Some(Fault::InstanceInactive(id)),
{
}

/// A service resolves only under its exact name, major version and scope.
pub proof fn services_never_fall_back(s: SharedView, instance: Seq<char>, key: KeyView)
    requires
        service_fault(s, instance, key) is None,
    ensures
        exists|i: int| 0 <= i < s.services.len() && (#[trigger] s.services[i]).0 == key && is_active(s, s.services[i].1),
{
    let owner = holder_at(s.services, key);
    assert(s.services[owner].0 == key);
}

proof fn holder_at(services: Seq<(KeyView, Seq<char>)>, key: KeyView) -> (i: int)
    requires
        holder(services, key) is Some,
    ensures
        0 <= i < services.len(),
        services[i].0 == key,
        holder(services, key) == Some(services[i].1),
    decreases services.len(),
{
    if services.last().0 == key {
        services.len() - 1
    } else {
        holder_at(services.drop_last(), key)
    }
}

/// A shutdown works on the module that started last; the modules that it may depend on
/// stay untouched until it is gone.
pub proof fn shutdown_goes_backwards(r: RuntimeView, i: int)
    requires
        r.active.len() > 0,
        0 <= i < r.entries.len(),
        0 <= r.active.last() < r.entries.len(),
        i != r.active.last(),
    ensures
        stepped(r).0.entries[i] == r.entries[i],
        stepped(r).0.active == r.active,
        !(stepped(r).1 is Done),
{
}

/// A step that was interrupted is asked for again: shutting down is idempotent.
pub proof fn interrupted_steps_repeat(r: RuntimeView)
    requires
        r.active.len() > 0 ==> 0 <= r.active.last() < r.entries.len(),
        r.active.len() > 0 ==> r.active.last() <= usize::MAX,
    ensures
        stepped(stepped(r).0).1 == stepped(r).1,
{
}

/// A module depends on exactly those that provide something it requires, and a start order sets
/// every provider before whoever requires it.
pub proof fn providers_start_first(o: LifecycleOptions, representable: bool, graph: Seq<ModuleView>, p: int, q: int, j: int)
    requires
        ordering(o, representable, graph) is Ok,
        0 <= p < graph.len(),
        0 <= q < graph.len(),
        ({
            let order = ordering(o, representable, graph)->Ok_0;
            &&& 0 <= j < graph[order[p]].required.len()
            &&& graph[order[q]].provides.contains(graph[order[p]].required[j])
        }),
    ensures
        q < p,
{
    orders_are_complete(o, representable, graph);
    let order = ordering(o, representable, graph)->Ok_0;
    assert(0 <= order[p] < graph.len());
    assert(0 <= order[q] < graph.len());
    assert(depends(graph, order[p], order[q]));
    let before = order.subrange(0, p);
    assert(before.contains(order[q]));
    let k = choose|k: int| 0 <= k < before.len() && before[k] == order[q];
    assert(order[k] == order[q]);
    assert(k == q);
}

/// What is required is provided by some module, and nothing is provided twice, wherever a start
/// order exists.
pub proof fn started_graphs_are_whole(o: LifecycleOptions, representable: bool, graph: Seq<ModuleView>)
    requires
        ordering(o, representable, graph) is Ok,
    ensures
        forall|i: int, j: int|
            0 <= i < graph.len() && 0 <= j < graph[i].required.len() ==> exists|a: int|
                0 <= a < graph.len() && (#[trigger] graph[a]).provides.contains(#[trigger] graph[i].required[j]),
        forall|a: int, b: int, i: int, j: int|
            0 <= a < i < graph.len() && 0 <= b < graph[a].provides.len() && 0 <= j < graph[i].provides.len()
                ==> #[trigger] graph[a].provides[b] != #[trigger] graph[i].provides[j],
        o.start_timeout.total() > 0 && o.stop_timeout.total() > 0 && o.cleanup_timeout.total() > 0,
        representable,
{
    let conflicts = |i: int| conflict_in(graph, i);
    let misses = |i: int| missing_in(graph, i);
    crate::faults::earliest_none(graph.len(), conflicts);
    crate::faults::earliest_none(graph.len(), misses);
    assert forall|i: int, j: int| 0 <= i < graph.len() && 0 <= j < graph[i].required.len() implies exists|a: int|
        0 <= a < graph.len() && (#[trigger] graph[a]).provides.contains(#[trigger] graph[i].required[j]) by {
        assert(misses(i) is None);
        let inner = |j: int| missing_at(graph, i, j);
        crate::faults::earliest_none(graph[i].required.len(), inner);
        assert(inner(j) is None);
        assert(super::order::provided(graph, graph[i].required[j]));
    }
    assert forall|a: int, b: int, i: int, j: int|
        0 <= a < i < graph.len() && 0 <= b < graph[a].provides.len() && 0 <= j < graph[i].provides.len() implies #[trigger] graph[a].provides[b]
        != #[trigger] graph[i].provides[j] by {
        assert(conflicts(i) is None);
        let inner = |j: int| conflict_at(graph, i, j);
        crate::faults::earliest_none(graph[i].provides.len(), inner);
        assert(inner(j) is None);
        if graph[a].provides[b] == graph[i].provides[j] {
            assert(super::order::provided_before(graph, i, j));
        }
    }
}

proof fn held_by(services: Seq<(KeyView, Seq<char>)>, key: KeyView)
    ensures
        holder(services, key) is None <==> forall|i: int| 0 <= i < services.len() ==> (#[trigger] services[i]).0 != key,
    decreases services.len(),
{
    if services.len() > 0 {
        let front = services.drop_last();
        held_by(front, key);
        if services.last().0 != key {
            if holder(front, key) is None {
                assert forall|i: int| 0 <= i < services.len() implies (#[trigger] services[i]).0 != key by {
                    if i < front.len() {
                        assert(front[i] == services[i]);
                    }
                }
            } else {
                let k = choose|k: int| 0 <= k < front.len() && (#[trigger] front[k]).0 == key;
                assert(services[k] == front[k]);
            }
        }
    }
}

/// A service is published only by an instance that runs and declares it, and by one alone.
pub proof fn services_are_published_once(s: SharedView, instance: Seq<char>, key: KeyView)
    ensures
        publish_fault(s, instance, key) is None <==> {
            &&& s.instances.contains_key(instance) && s.instances[instance].accepting
            &&& s.instances[instance].metadata.provides.contains(key)
            &&& forall|i: int| 0 <= i < s.services.len() ==> (#[trigger] s.services[i]).0 != key
        },
{
    held_by(s.services, key);
}

/// A service is given only to an instance that runs and declares or requires it, and only from
/// a provider that runs.
pub proof fn services_are_given_as_declared(s: SharedView, instance: Seq<char>, key: KeyView)
    requires
        service_fault(s, instance, key) is None,
    ensures
        s.instances.contains_key(instance) && s.instances[instance].accepting,
        s.instances[instance].metadata.required.contains(key) || s.instances[instance].metadata.provides.contains(key),
        exists|i: int|
            0 <= i < s.services.len() && (#[trigger] s.services[i]).0 == key && s.instances.contains_key(s.services[i].1)
                && s.instances[s.services[i].1].accepting,
{
    let at = holder_at(s.services, key);
    assert(s.services[at].0 == key);
}

/// Releasing an instance leaves what the others own as it was.
pub proof fn releasing_leaves_the_others(s: SharedView, id: Seq<char>, other: Seq<char>)
    requires
        other != id,
    ensures
        released(s, id).instances.contains_key(other) == s.instances.contains_key(other),
        s.instances.contains_key(other) ==> released(s, id).instances[other] == s.instances[other],
        revoked(s, id).services == s.services,
        s.instances.contains_key(other) ==> revoked(s, id).instances[other] == s.instances[other],
        forall|i: int|
            0 <= i < s.services.len() && (#[trigger] s.services[i]).1 != id ==> released(s, id).services.contains(s.services[i]),
        forall|i: int|
            0 <= i < s.listeners.len() && (#[trigger] s.listeners[i]).owner != id ==> released(s, id).listeners.contains(
                s.listeners[i],
            ),
{
    others_keep_services(s.services, id);
    others_keep_listeners(s.listeners, id);
}

proof fn others_keep_services(services: Seq<(KeyView, Seq<char>)>, owner: Seq<char>)
    ensures
        forall|i: int|
            0 <= i < services.len() && (#[trigger] services[i]).1 != owner ==> without_services(services, owner).contains(
                services[i],
            ),
    decreases services.len(),
{
    if services.len() > 0 {
        let front = services.drop_last();
        others_keep_services(front, owner);
        let was = without_services(front, owner);
        let now = without_services(services, owner);
        assert forall|i: int| 0 <= i < services.len() && (#[trigger] services[i]).1 != owner implies now.contains(services[i]) by {
            if i < front.len() {
                assert(front[i] == services[i]);
                let k = choose|k: int| 0 <= k < was.len() && was[k] == front[i];
                assert(now[k] == services[i]);
            } else {
                assert(now[now.len() - 1] == services[i]);
            }
        }
    }
}

proof fn others_keep_listeners(listeners: Seq<ListenerView>, owner: Seq<char>)
    ensures
        forall|i: int|
            0 <= i < listeners.len() && (#[trigger] listeners[i]).owner != owner ==> without_listeners(
                listeners,
                owner,
            ).contains(listeners[i]),
    decreases listeners.len(),
{
    if listeners.len() > 0 {
        let front = listeners.drop_last();
        others_keep_listeners(front, owner);
        let was = without_listeners(front, owner);
        let now = without_listeners(listeners, owner);
        assert forall|i: int| 0 <= i < listeners.len() && (#[trigger] listeners[i]).owner != owner implies now.contains(
            listeners[i],
        ) by {
            if i < front.len() {
                assert(front[i] == listeners[i]);
                let k = choose|k: int| 0 <= k < was.len() && was[k] == front[i];
                assert(now[k] == listeners[i]);
            } else {
                assert(now[now.len() - 1] == listeners[i]);
            }
        }
    }
}

/// A module is taken only by a runtime that has not started, with room, under a name of its own
/// and with complete service keys; it then waits, holding nothing.
pub proof fn modules_are_added_before_the_start(r: RuntimeView, m: ModuleView)
    requires
        add_fault(r, m) is None,
    ensures
        r.fresh,
        r.entries.len() < r.options.max_modules,
        m.instance.len() > 0,
        !r.state.instances.contains_key(m.instance),
        forall|i: int|
            0 <= i < m.provides.len() ==> (#[trigger] m.provides[i]).name.len() > 0 && m.provides[i].scope.len() > 0
                && m.provides[i].major != 0,
        forall|i: int|
            0 <= i < m.required.len() ==> (#[trigger] m.required[i]).name.len() > 0 && m.required[i].scope.len() > 0
                && m.required[i].major != 0,
        added(r, m).entries.len() == r.entries.len() + 1,
        added(r, m).entries.last().metadata == m,
        !added(r, m).entries.last().stop_finished && added(r, m).entries.last().cleanup is None,
        !added(r, m).state.instances[m.instance].accepting,
        added(r, m).state.instances[m.instance].disposers == 0 && added(r, m).state.instances[m.instance].tasks == 0,
        added(r, m).active == r.active && added(r, m).fresh,
{
    assert forall|i: int| 0 <= i < m.provides.len() implies (#[trigger] m.provides[i]).name.len() > 0
        && m.provides[i].scope.len() > 0 && m.provides[i].major != 0 by {
        assert(key_valid(m.provides[i]));
    }
    assert forall|i: int| 0 <= i < m.required.len() implies (#[trigger] m.required[i]).name.len() > 0
        && m.required[i].scope.len() > 0 && m.required[i].major != 0 by {
        assert(key_valid(m.required[i]));
    }
}

/// A module has started exactly if its start finished and everything it declares is published.
pub proof fn starts_publish_what_they_declare(r: RuntimeView, index: int, hook: Hook)
    requires
        0 <= index < r.entries.len(),
    ensures
        start_fault(r, index, hook) is None <==> hook is Finished && forall|j: int|
            0 <= j < r.entries[index].metadata.provides.len() ==> exists|i: int|
                0 <= i < r.state.services.len() && (#[trigger] r.state.services[i]).0
                    == #[trigger] r.entries[index].metadata.provides[j],
        hook is TimedOut ==> start_fault(r, index, hook) is Some && start_fault(r, index, hook)->0 is LifecycleTimeout,
        hook is Failed ==> start_fault(r, index, hook) is Some && start_fault(r, index, hook)->0 is LifecycleFailure,
{
    let m = r.entries[index].metadata;
    let f = |j: int| unpublished_at(r, index, j);
    crate::faults::earliest_none(m.provides.len(), f);
    assert forall|j: int| 0 <= j < m.provides.len() implies (f(j) is None <==> exists|i: int|
        0 <= i < r.state.services.len() && (#[trigger] r.state.services[i]).0 == #[trigger] m.provides[j]) by {
        held_by(r.state.services, m.provides[j]);
    }
    if start_fault(r, index, hook) is None {
        assert forall|j: int| 0 <= j < m.provides.len() implies exists|i: int|
            0 <= i < r.state.services.len() && (#[trigger] r.state.services[i]).0 == #[trigger] m.provides[j] by {
            assert(f(j) is None);
        }
    }
}

/// A resource is taken only by an instance that runs and holds fewer than it may.
pub proof fn resources_are_bounded(s: SharedView, o: LifecycleOptions, instance: Seq<char>)
    ensures
        resource_fault(s, o, instance) is None <==> s.instances.contains_key(instance) && s.instances[instance].accepting
            && s.instances[instance].disposers + s.instances[instance].tasks < o.max_resources_per_module,
{
}

/// An event goes out only from an instance that runs, with a topic, within its size; a
/// subscription has a topic and a bounded queue.
pub proof fn events_are_bounded(
    s: SharedView,
    o: LifecycleOptions,
    instance: Seq<char>,
    topic: Seq<char>,
    data: Seq<char>,
    capacity: usize,
)
    ensures
        event_fault(s, o, instance, topic, data) is None <==> topic.len() > 0 && byte_len(topic) + byte_len(data)
            <= o.max_event_bytes && s.instances.contains_key(instance) && s.instances[instance].accepting,
        topic_fault(o, topic, capacity) is None ==> topic.len() > 0 && byte_len(topic) <= o.max_event_bytes && 1 <= capacity
            <= o.max_event_queue,
{
}

} // verus!
