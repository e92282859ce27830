//! The first fault in a list of checks.
use vstd::prelude::*;

verus! {

/// The fault of the earliest faulty item among the first `count`.
pub open spec fn earliest<T>(count: nat, fault: spec_fn(int) -> Option<T>) -> Option<T>
    decreases count,
{
    if count == 0 {
        None
    } else {
        let front = earliest((count - 1) as nat, fault);
        if front is Some { front } else { fault(count - 1) }
    }
}

/// A fault found early is the fault of the whole.
pub proof fn earliest_sticks<T>(m: nat, n: nat, fault: spec_fn(int) -> Option<T>)
    requires
        m <= n,
        earliest(m, fault) is Some,
    ensures
        earliest(n, fault) == earliest(m, fault),
    decreases n - m,
{
    if m < n {
        earliest_sticks(m, (n - 1) as nat, fault);
    }
}

/// No fault in the whole means none in any item.
pub proof fn earliest_none<T>(n: nat, fault: spec_fn(int) -> Option<T>)
    ensures
        earliest(n, fault) is None <==> forall|i: int| 0 <= i < n ==> (#[trigger] fault(i)) is None,
    decreases n,
{
    if n > 0 {
        earliest_none((n - 1) as nat, fault);
    }
}

/// A fault of the whole is the fault of some item.
pub proof fn earliest_item<T>(n: nat, fault: spec_fn(int) -> Option<T>) -> (i: int)
    requires
        earliest(n, fault) is Some,
    ensures
        0 <= i < n,
        earliest(n, fault) == fault(i),
    decreases n,
{
    if earliest((n - 1) as nat, fault) is Some {
        earliest_item((n - 1) as nat, fault)
    } else {
        n - 1
    }
}

/// The first of two faults.
pub open spec fn either<T>(a: Option<T>, b: Option<T>) -> Option<T> {
    if a is Some { a } else { b }
}

} // verus!
