//! The order in which modules start.
use super::{Fault, FrameworkError, InstanceId, KeyView, LifecycleOptions, ModuleMetadata, ModuleView};
use super::{ids_of, keys_of, lists_key};
use crate::faults::{earliest, earliest_none, earliest_sticks, either};
use crate::text::copied;
use vstd::prelude::*;

verus! {

pub open spec fn modules_of(list: Seq<ModuleMetadata>) -> Seq<ModuleView> {
    list.map_values(|m: ModuleMetadata| m@)
}

/// The service at this place was provided at an earlier one.
pub open spec fn provided_before(graph: Seq<ModuleView>, i: int, j: int) -> bool {
    exists|a: int, b: int|
        0 <= a <= i && 0 <= b < graph[a].provides.len() && (a < i || b < j) && #[trigger] graph[a].provides[b]
            == graph[i].provides[j]
}

pub open spec fn conflict_at(graph: Seq<ModuleView>, i: int, j: int) -> Option<Fault> {
    if provided_before(graph, i, j) { Some(Fault::ProviderConflict(graph[i].provides[j])) } else { None }
}

pub open spec fn conflict_in(graph: Seq<ModuleView>, i: int) -> Option<Fault> {
    earliest(graph[i].provides.len(), |j: int| conflict_at(graph, i, j))
}

/// The first service with a second provider.
pub open spec fn conflict_fault(graph: Seq<ModuleView>) -> Option<Fault> {
    earliest(graph.len(), |i: int| conflict_in(graph, i))
}

pub open spec fn provided(graph: Seq<ModuleView>, key: KeyView) -> bool {
    exists|a: int| 0 <= a < graph.len() && (#[trigger] graph[a]).provides.contains(key)
}

pub open spec fn missing_at(graph: Seq<ModuleView>, i: int, j: int) -> Option<Fault> {
    if !provided(graph, graph[i].required[j]) {
        Some(Fault::MissingDependency { instance: graph[i].instance, service: graph[i].required[j] })
    } else {
        None
    }
}

pub open spec fn missing_in(graph: Seq<ModuleView>, i: int) -> Option<Fault> {
    earliest(graph[i].required.len(), |j: int| missing_at(graph, i, j))
}

/// The first requirement that nobody provides.
pub open spec fn missing_fault(graph: Seq<ModuleView>) -> Option<Fault> {
    earliest(graph.len(), |i: int| missing_in(graph, i))
}

/// One module needs a service of another.
pub open spec fn depends(graph: Seq<ModuleView>, i: int, a: int) -> bool {
    exists|j: int| 0 <= j < graph[i].required.len() && graph[a].provides.contains(#[trigger] graph[i].required[j])
}

/// All that a module needs has started.
pub open spec fn ready(graph: Seq<ModuleView>, done: Seq<int>, i: int) -> bool {
    forall|a: int| 0 <= a < graph.len() && #[trigger] depends(graph, i, a) ==> done.contains(a)
}

/// The first module from `from` on that can start next.
pub open spec fn next_ready(graph: Seq<ModuleView>, done: Seq<int>, from: int) -> Option<int>
    decreases graph.len() - from,
{
    if from >= graph.len() {
        None
    } else if !done.contains(from) && ready(graph, done, from) {
        Some(from)
    } else {
        next_ready(graph, done, from + 1)
    }
}

/// The whole order, or how far it goes.
pub open spec fn sorted(graph: Seq<ModuleView>, done: Seq<int>) -> Result<Seq<int>, Seq<int>>
    decreases graph.len() - done.len(),
{
    if done.len() >= graph.len() {
        Ok(done)
    } else {
        match next_ready(graph, done, 0) {
            Some(i) => sorted(graph, done.push(i)),
            None => Err(done),
        }
    }
}

/// The instances among the first `n` that are not done.
pub open spec fn left_over(graph: Seq<ModuleView>, done: Seq<int>, n: nat) -> Seq<Seq<char>>
    decreases n,
{
    if n == 0 {
        Seq::empty()
    } else {
        let front = left_over(graph, done, (n - 1) as nat);
        if done.contains(n - 1) { front } else { front.push(graph[n - 1].instance) }
    }
}

/// The deadlines are unusable. `representable` says that the clock can add each of them.
pub open spec fn deadline_fault(o: LifecycleOptions, representable: bool) -> Option<Fault> {
    if o.start_timeout.total() == 0 || o.stop_timeout.total() == 0 || o.cleanup_timeout.total() == 0 {
        Some(Fault::InvalidConfiguration("lifecycle deadlines must be positive"@))
    } else if !representable {
        Some(Fault::InvalidConfiguration("lifecycle deadline is out of range"@))
    } else {
        None
    }
}

/// The start order of modules, or why there is none.
pub open spec fn ordering(o: LifecycleOptions, representable: bool, graph: Seq<ModuleView>) -> Result<Seq<int>, Fault> {
    let fault = either(deadline_fault(o, representable), either(conflict_fault(graph), missing_fault(graph)));
    if fault is Some {
        Err(fault->0)
    } else {
        match sorted(graph, Seq::empty()) {
            Ok(order) => Ok(order),
            Err(done) => Err(Fault::DependencyCycle(left_over(graph, done, graph.len()))),
        }
    }
}

pub open spec fn indices(list: Seq<usize>) -> Seq<int> {
    list.map_values(|i: usize| i as int)
}

/// Without a conflict every service has one provider.
pub proof fn provider_is_unique(graph: Seq<ModuleView>, a: int, b: int, key: KeyView)
    requires
        conflict_fault(graph) is None,
        0 <= a < graph.len(),
        0 <= b < graph.len(),
        graph[a].provides.contains(key),
        graph[b].provides.contains(key),
    ensures
        a == b,
{
    if a != b {
        let (lo, hi) = if a < b { (a, b) } else { (b, a) };
        let x = choose|x: int| 0 <= x < graph[lo].provides.len() && graph[lo].provides[x] == key;
        let y = choose|y: int| 0 <= y < graph[hi].provides.len() && graph[hi].provides[y] == key;
        let f = |i: int| conflict_in(graph, i);
        earliest_none(graph.len(), f);
        assert(f(hi) is None);
        let g = |j: int| conflict_at(graph, hi, j);
        earliest_none(graph[hi].provides.len(), g);
        assert(g(y) is None);
        assert(graph[lo].provides[x] == graph[hi].provides[y]);
        assert(provided_before(graph, hi, y));
    }
}

fn earlier(modules: &Vec<ModuleMetadata>, i: usize, j: usize) -> (r: bool)
    requires
        i < modules.len(),
        j < modules@[i as int].provides.len(),
    ensures
        r == provided_before(modules_of(modules@), i as int, j as int),
{
    let ghost graph = modules_of(modules@);
    let key = &modules[i].provides[j];
    assert(graph[i as int].provides[j as int] == key@);
    let mut a: usize = 0;
    while a <= i
        invariant
            a <= i + 1,
            i < modules.len(),
            j < modules@[i as int].provides.len(),
            graph == modules_of(modules@),
            key@ == graph[i as int].provides[j as int],
            forall|c: int, b: int|
                0 <= c < a && 0 <= b < graph[c].provides.len() && (c < i || b < j) ==> #[trigger] graph[c].provides[b] != key@,
        decreases i + 1 - a,
    {
        let list = &modules[a].provides;
        let limit: usize = if a < i { list.len() } else { j };
        let mut b: usize = 0;
        while b < limit
            invariant
                b <= limit <= list.len(),
                a <= i < modules.len(),
                limit == (if a < i { list.len() } else { j }),
                graph == modules_of(modules@),
                *list == modules@[a as int].provides,
                graph[a as int].provides == keys_of(list@),
                key@ == graph[i as int].provides[j as int],
                forall|d: int| 0 <= d < b ==> #[trigger] graph[a as int].provides[d] != key@,
            decreases limit - b,
        {
            if list[b].equals(key) {
                assert(graph[a as int].provides[b as int] == key@);
                return true;
            }
            b = b + 1;
        }
        a = a + 1;
    }
    false
}

fn check_conflicts(modules: &Vec<ModuleMetadata>) -> (r: Result<(), FrameworkError>)
    ensures
        match r {
            Ok(_) => conflict_fault(modules_of(modules@)) is None,
            Err(e) => conflict_fault(modules_of(modules@)) == Some(e@),
        },
{
    let ghost graph = modules_of(modules@);
    let ghost f = |i: int| conflict_in(graph, i);
    let mut i: usize = 0;
    while i < modules.len()
        invariant
            i <= modules.len(),
            graph == modules_of(modules@),
            f == (|k: int| conflict_in(graph, k)),
            earliest(i as nat, f) is None,
        decreases modules.len() - i,
    {
        let ghost g = |j: int| conflict_at(graph, i as int, j);
        let mut j: usize = 0;
        while j < modules[i].provides.len()
            invariant
                i < modules.len(),
                j <= modules@[i as int].provides.len(),
                graph == modules_of(modules@),
                f == (|k: int| conflict_in(graph, k)),
                earliest(i as nat, f) is None,
                g == (|k: int| conflict_at(graph, i as int, k)),
                earliest(j as nat, g) is None,
            decreases modules@[i as int].provides.len() - j,
        {
            let clash = earlier(modules, i, j);
            assert(g(j as int) == conflict_at(graph, i as int, j as int));
            if clash {
                let key = modules[i].provides[j].clone();
                proof {
                    assert(key@ == graph[i as int].provides[j as int]);
                    assert(earliest((j + 1) as nat, g) == g(j as int));
                    earliest_sticks((j + 1) as nat, graph[i as int].provides.len(), g);
                    assert(f(i as int) == conflict_in(graph, i as int));
                    assert(earliest((i + 1) as nat, f) == f(i as int));
                    earliest_sticks((i + 1) as nat, graph.len(), f);
                }
                return Err(FrameworkError::ProviderConflict(key));
            }
            j = j + 1;
        }
        assert(f(i as int) == conflict_in(graph, i as int));
        i = i + 1;
    }
    Ok(())
}

fn provider(modules: &Vec<ModuleMetadata>, i: usize, j: usize) -> (r: Option<usize>)
    requires
        i < modules.len(),
        j < modules@[i as int].required.len(),
    ensures
        ({
            let graph = modules_of(modules@);
            match r {
                Some(a) => a < modules.len() && graph[a as int].provides.contains(graph[i as int].required[j as int]),
                None => !provided(graph, graph[i as int].required[j as int]),
            }
        }),
{
    let ghost graph = modules_of(modules@);
    let key = &modules[i].required[j];
    assert(graph[i as int].required[j as int] == key@);
    let mut a: usize = 0;
    while a < modules.len()
        invariant
            a <= modules.len(),
            graph == modules_of(modules@),
            key@ == graph[i as int].required[j as int],
            forall|c: int| 0 <= c < a ==> !(#[trigger] graph[c]).provides.contains(key@),
        decreases modules.len() - a,
    {
        let found = lists_key(&modules[a].provides, key);
        assert(graph[a as int].provides == keys_of(modules@[a as int].provides@));
        if found {
            return Some(a);
        }
        a = a + 1;
    }
    None
}

/// For every requirement the module that provides it.
spec fn resolved(graph: Seq<ModuleView>, table: Seq<Vec<usize>>, n: int) -> bool {
    &&& table.len() == n
    &&& forall|i: int| 0 <= i < n ==> (#[trigger] table[i]).len() == graph[i].required.len()
    &&& forall|i: int, j: int|
        0 <= i < n && 0 <= j < graph[i].required.len() ==> (#[trigger] table[i]@[j]) < graph.len()
            && graph[table[i]@[j] as int].provides.contains(graph[i].required[j])
}

fn resolve(modules: &Vec<ModuleMetadata>) -> (r: Result<Vec<Vec<usize>>, FrameworkError>)
    ensures
        match r {
            Ok(table) => missing_fault(modules_of(modules@)) is None && resolved(
                modules_of(modules@),
                table@,
                modules@.len() as int,
            ),
            Err(e) => missing_fault(modules_of(modules@)) == Some(e@),
        },
{
    let ghost graph = modules_of(modules@);
    let ghost f = |i: int| missing_in(graph, i);
    let mut table: Vec<Vec<usize>> = Vec::new();
    let mut i: usize = 0;
    while i < modules.len()
        invariant
            i <= modules.len(),
            graph == modules_of(modules@),
            f == (|k: int| missing_in(graph, k)),
            earliest(i as nat, f) is None,
            resolved(graph, table@, i as int),
        decreases modules.len() - i,
    {
        let ghost g = |j: int| missing_at(graph, i as int, j);
        let mut row: Vec<usize> = Vec::new();
        let mut j: usize = 0;
        while j < modules[i].required.len()
            invariant
                i < modules.len(),
                j <= modules@[i as int].required.len(),
                graph == modules_of(modules@),
                f == (|k: int| missing_in(graph, k)),
                earliest(i as nat, f) is None,
                g == (|k: int| missing_at(graph, i as int, k)),
                earliest(j as nat, g) is None,
                row.len() == j,
                forall|k: int|
                    0 <= k < j ==> (#[trigger] row@[k]) < graph.len() && graph[row@[k] as int].provides.contains(
                        graph[i as int].required[k],
                    ),
            decreases modules@[i as int].required.len() - j,
        {
            let found = provider(modules, i, j);
            assert(g(j as int) == missing_at(graph, i as int, j as int));
            match found {
                Some(a) => {
                    row.push(a);
                },
                None => {
                    let instance = modules[i].instance.clone();
                    let service = modules[i].required[j].clone();
                    proof {
                        assert(service@ == graph[i as int].required[j as int]);
                        assert(earliest((j + 1) as nat, g) == g(j as int));
                        earliest_sticks((j + 1) as nat, graph[i as int].required.len(), g);
                        assert(f(i as int) == missing_in(graph, i as int));
                        assert(earliest((i + 1) as nat, f) == f(i as int));
                        earliest_sticks((i + 1) as nat, graph.len(), f);
                    }
                    return Err(FrameworkError::MissingDependency { instance, service });
                },
            }
            j = j + 1;
        }
        let ghost before = table@;
        table.push(row);
        proof {
            assert(f(i as int) == missing_in(graph, i as int));
            assert forall|k: int, j: int| 0 <= k < i + 1 && 0 <= j < graph[k].required.len() implies (#[trigger] table@[k]@[j])
                < graph.len() && graph[table@[k]@[j] as int].provides.contains(graph[k].required[j]) by {
                if k < i {
                    assert(table@[k] == before[k]);
                    assert(before[k]@[j] < graph.len());
                }
            }
        }
        i = i + 1;
    }
    Ok(table)
}

fn next(modules: &Vec<ModuleMetadata>, table: &Vec<Vec<usize>>, order: &Vec<usize>, done: &Vec<bool>) -> (r: Option<usize>)
    requires
        conflict_fault(modules_of(modules@)) is None,
        resolved(modules_of(modules@), table@, modules@.len() as int),
        done.len() == modules.len(),
        forall|i: int| 0 <= i < done.len() ==> (#[trigger] done@[i]) == indices(order@).contains(i),
    ensures
        match r {
            Some(i) => next_ready(modules_of(modules@), indices(order@), 0) == Some(i as int) && i < modules.len(),
            None => next_ready(modules_of(modules@), indices(order@), 0) is None,
        },
{
    let ghost graph = modules_of(modules@);
    let ghost prefix = indices(order@);
    let mut i: usize = 0;
    while i < modules.len()
        invariant
            i <= modules.len(),
            graph == modules_of(modules@),
            prefix == indices(order@),
            conflict_fault(graph) is None,
            resolved(graph, table@, modules@.len() as int),
            done.len() == modules.len(),
            forall|k: int| 0 <= k < done.len() ==> (#[trigger] done@[k]) == prefix.contains(k),
            next_ready(graph, prefix, 0) == next_ready(graph, prefix, i as int),
        decreases modules.len() - i,
    {
        let mut free = !done[i];
        let mut j: usize = 0;
        assert(table@[i as int].len() == graph[i as int].required.len());
        while j < table[i].len()
            invariant
                i < modules.len(),
                graph == modules_of(modules@),
                prefix == indices(order@),
                resolved(graph, table@, modules@.len() as int),
                table@[i as int].len() == graph[i as int].required.len(),
                done.len() == modules.len(),
                forall|k: int| 0 <= k < done.len() ==> (#[trigger] done@[k]) == prefix.contains(k),
                j <= table@[i as int].len(),
                free == (!prefix.contains(i as int) && forall|k: int|
                    0 <= k < j ==> prefix.contains((#[trigger] table@[i as int]@[k]) as int)),
            decreases table@[i as int].len() - j,
        {
            assert(table@[i as int]@[j as int] < graph.len());
            if !done[table[i][j]] {
                free = false;
            }
            j = j + 1;
        }
        proof {
            assert(free == (!prefix.contains(i as int) && ready(graph, prefix, i as int))) by {
                if free {
                    assert forall|a: int| 0 <= a < graph.len() && #[trigger] depends(graph, i as int, a) implies prefix.contains(
                        a,
                    ) by {
                        let k = choose|k: int|
                            0 <= k < graph[i as int].required.len() && graph[a].provides.contains(
                                #[trigger] graph[i as int].required[k],
                            );
                        let p = table@[i as int]@[k] as int;
                        provider_is_unique(graph, a, p, graph[i as int].required[k]);
                    }
                } else if !prefix.contains(i as int) {
                    let k = choose|k: int|
                        0 <= k < j && !prefix.contains((#[trigger] table@[i as int]@[k]) as int);
                    let p = table@[i as int]@[k] as int;
                    assert(graph[p].provides.contains(graph[i as int].required[k]));
                    assert(depends(graph, i as int, p));
                }
            }
        }
        if free {
            return Some(i);
        }
        i = i + 1;
    }
    None
}

fn remaining(modules: &Vec<ModuleMetadata>, order: &Vec<usize>, done: &Vec<bool>) -> (r: Vec<InstanceId>)
    requires
        done.len() == modules.len(),
        forall|i: int| 0 <= i < done.len() ==> (#[trigger] done@[i]) == indices(order@).contains(i),
    ensures
        ids_of(r@) == left_over(modules_of(modules@), indices(order@), modules@.len()),
{
    let ghost graph = modules_of(modules@);
    let ghost prefix = indices(order@);
    let mut r: Vec<InstanceId> = Vec::new();
    let mut i: usize = 0;
    assert(ids_of(r@) =~= left_over(graph, prefix, 0));
    while i < modules.len()
        invariant
            i <= modules.len(),
            graph == modules_of(modules@),
            prefix == indices(order@),
            done.len() == modules.len(),
            forall|k: int| 0 <= k < done.len() ==> (#[trigger] done@[k]) == prefix.contains(k),
            ids_of(r@) == left_over(graph, prefix, i as nat),
        decreases modules.len() - i,
    {
        if !done[i] {
            let ghost before = ids_of(r@);
            let id = modules[i].instance.clone();
            r.push(id);
            assert(ids_of(r@) =~= before.push(id@));
        }
        i = i + 1;
    }
    r
}

/// The order in which modules start: each time the first one whose needs have started.
pub fn start_order(options: &LifecycleOptions, representable: bool, modules: &Vec<ModuleMetadata>) -> (r: Result<
    Vec<usize>,
    FrameworkError,
>)
    ensures
        match r {
            Ok(order) => ordering(*options, representable, modules_of(modules@)) == Ok::<Seq<int>, Fault>(indices(order@)),
            Err(e) => ordering(*options, representable, modules_of(modules@)) == Err::<Seq<int>, Fault>(e@),
        },
{
    if options.start_timeout.is_zero() || options.stop_timeout.is_zero() || options.cleanup_timeout.is_zero() {
        return Err(FrameworkError::InvalidConfiguration(copied("lifecycle deadlines must be positive")));
    }
    if !representable {
        return Err(FrameworkError::InvalidConfiguration(copied("lifecycle deadline is out of range")));
    }
    if let Err(e) = check_conflicts(modules) {
        return Err(e);
    }
    let table = match resolve(modules) {
        Ok(table) => table,
        Err(e) => {
            return Err(e);
        },
    };
    let ghost graph = modules_of(modules@);
    let mut done: Vec<bool> = Vec::new();
    let mut k: usize = 0;
    while k < modules.len()
        invariant
            k <= modules.len(),
            done.len() == k,
            forall|i: int| 0 <= i < k ==> !(#[trigger] done@[i]),
        decreases modules.len() - k,
    {
        done.push(false);
        k = k + 1;
    }
    let mut order: Vec<usize> = Vec::new();
    assert(indices(order@) =~= Seq::<int>::empty());
    while order.len() < modules.len()
        invariant
            graph == modules_of(modules@),
            order.len() <= modules.len(),
            conflict_fault(graph) is None,
            missing_fault(graph) is None,
            deadline_fault(*options, representable) is None,
            resolved(graph, table@, modules@.len() as int),
            done.len() == modules.len(),
            forall|i: int| 0 <= i < done.len() ==> (#[trigger] done@[i]) == indices(order@).contains(i),
            sorted(graph, indices(order@)) == sorted(graph, Seq::empty()),
        decreases modules.len() - order.len(),
    {
        match next(modules, &table, &order, &done) {
            Some(i) => {
                let ghost before = indices(order@);
                order.push(i);
                done.set(i, true);
                proof {
                    assert(indices(order@) =~= before.push(i as int));
                    assert forall|k: int| 0 <= k < done.len() implies (#[trigger] done@[k]) == indices(order@).contains(k) by {
                        if before.contains(k) {
                            let m = choose|m: int| 0 <= m < before.len() && before[m] == k;
                            assert(indices(order@)[m] == k);
                        }
                        if k == i {
                            assert(indices(order@)[before.len() as int] == k);
                        }
                    }
                }
            },
            None => {
                return Err(FrameworkError::DependencyCycle(remaining(modules, &order, &done)));
            },
        }
    }
    Ok(order)
}

} // verus!
