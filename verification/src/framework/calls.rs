//! Bounded service dispatch with cooperative shutdown.
use crate::text::{copied, joined};
use vstd::prelude::*;

verus! {

pub const MAX_CALLS: usize = 1024;

#[derive(Debug)]
pub enum DispatchError {
    Closed,
    Capacity,
    Poisoned,
    Supervisor(String),
}

pub enum DispatchFault {
    Closed,
    Capacity,
    Poisoned,
    Supervisor(Seq<char>),
}

impl View for DispatchError {
    type V = DispatchFault;

    open spec fn view(&self) -> DispatchFault {
        match self {
            DispatchError::Closed => DispatchFault::Closed,
            DispatchError::Capacity => DispatchFault::Capacity,
            DispatchError::Poisoned => DispatchFault::Poisoned,
            DispatchError::Supervisor(m) => DispatchFault::Supervisor(m@),
        }
    }
}

/// The text shown for a refused dispatch.
pub open spec fn dispatch_message(fault: DispatchFault) -> Seq<char> {
    match fault {
        DispatchFault::Closed => "service is shutting down"@,
        DispatchFault::Capacity => "service call capacity exhausted"@,
        DispatchFault::Poisoned => "service call state lock was poisoned"@,
        DispatchFault::Supervisor(m) => "service call supervisor failed: "@ + m,
    }
}

impl DispatchError {
    /// The text shown for this failure.
    pub fn message(&self) -> (r: String)
        ensures
            r@ == dispatch_message(self@),
    {
        match self {
            DispatchError::Closed => copied("service is shutting down"),
            DispatchError::Capacity => copied("service call capacity exhausted"),
            DispatchError::Poisoned => copied("service call state lock was poisoned"),
            DispatchError::Supervisor(m) => joined("service call supervisor failed: ", m),
        }
    }
}

/// The calls in flight. Each owns its slot until its supervised work has ended.
pub struct CallScope {
    closed: bool,
    next: u64,
    active: Vec<u64>,
}

pub struct CallsView {
    pub closed: bool,
    pub next: u64,
    pub active: Seq<u64>,
}

impl View for CallScope {
    type V = CallsView;

    closed spec fn view(&self) -> CallsView {
        CallsView { closed: self.closed, next: self.next, active: self.active@ }
    }
}

/// What holds of every scope: few calls, each under an id given out once.
pub open spec fn orderly(c: CallsView) -> bool {
    &&& c.active.len() <= MAX_CALLS
    &&& forall|i: int| 0 <= i < c.active.len() ==> (#[trigger] c.active[i]) < c.next
    &&& c.active.no_duplicates()
}

/// Why a new call is refused.
pub open spec fn refusal(c: CallsView) -> Option<DispatchFault> {
    if c.closed {
        Some(DispatchFault::Closed)
    } else if c.active.len() >= MAX_CALLS || c.next == u64::MAX {
        Some(DispatchFault::Capacity)
    } else {
        None
    }
}

impl Default for CallScope {
    fn default() -> (r: Self)
        ensures
            r.wf(),
            r@ == (CallsView { closed: false, next: 0, active: Seq::empty() }),
    {
        CallScope { closed: false, next: 0, active: Vec::new() }
    }
}

impl CallScope {
    pub open spec fn wf(&self) -> bool {
        orderly(self@)
    }

    /// Takes a slot for a call.
    pub fn begin(&mut self) -> (r: Result<u64, DispatchError>)
        requires
            old(self).wf(),
        ensures
            final(self).wf(),
            match r {
                Ok(id) => refusal(old(self)@) is None && id == old(self)@.next && final(self)@ == (CallsView {
                    next: (old(self)@.next + 1) as u64,
                    active: old(self)@.active.push(id),
                    ..old(self)@
                }),
                Err(e) => refusal(old(self)@) == Some(e@) && final(self)@ == old(self)@,
            },
    {
        if self.closed {
            return Err(DispatchError::Closed);
        }
        if self.active.len() >= MAX_CALLS || self.next == u64::MAX {
            return Err(DispatchError::Capacity);
        }
        let id = self.next;
        self.next = self.next + 1;
        self.active.push(id);
        Ok(id)
    }

    /// Gives a slot back; tells how many calls are left.
    pub fn end(&mut self, id: u64) -> (left: usize)
        requires
            old(self).wf(),
        ensures
            final(self).wf(),
            final(self)@.closed == old(self)@.closed,
            final(self)@.next == old(self)@.next,
            !final(self)@.active.contains(id),
            forall|x: u64| x != id ==> (#[trigger] final(self)@.active.contains(x) <==> old(self)@.active.contains(x)),
            final(self)@.active.len() == old(self)@.active.len() - (if old(self)@.active.contains(id) { 1int } else { 0 }),
            left == final(self)@.active.len(),
    {
        let ghost was = self.active@;
        let mut i: usize = 0;
        while i < self.active.len()
            invariant
                i <= self.active.len(),
                self.active@ == was,
                self.closed == old(self)@.closed,
                self.next == old(self)@.next,
                old(self)@.active == was,
                orderly(old(self)@),
                forall|j: int| 0 <= j < i ==> was[j] != id,
            decreases self.active.len() - i,
        {
            if self.active[i] == id {
                let gone = self.active.remove(i);
                proof {
                    let now = self.active@;
                    assert(now =~= was.remove(i as int));
                    assert(was.contains(id)) by {
                        assert(was[i as int] == id);
                    }
                    assert forall|j: int| 0 <= j < now.len() implies #[trigger] now[j] < old(self)@.next && now[j] != id by {
                        let k = if j < i { j } else { j + 1 };
                        assert(now[j] == was[k]);
                    }
                    assert forall|x: u64| x != id implies (#[trigger] now.contains(x) <==> was.contains(x)) by {
                        if now.contains(x) {
                            let j = choose|j: int| 0 <= j < now.len() && now[j] == x;
                            let k = if j < i { j } else { j + 1 };
                            assert(was[k] == x);
                        }
                        if was.contains(x) {
                            let k = choose|k: int| 0 <= k < was.len() && was[k] == x;
                            let j = if k < i { k } else { k - 1 };
                            assert(now[j] == x);
                        }
                    }
                    assert forall|a: int, b: int| 0 <= a < now.len() && 0 <= b < now.len() && a != b implies now[a] != now[b] by {
                        let k = if a < i { a } else { a + 1 };
                        let m = if b < i { b } else { b + 1 };
                        assert(now[a] == was[k] && now[b] == was[m]);
                    }
                }
                return self.active.len();
            }
            i = i + 1;
        }
        self.active.len()
    }

    /// Revokes dispatch; hands out the calls that must be cancelled.
    pub fn close(&mut self) -> (r: Vec<u64>)
        requires
            old(self).wf(),
        ensures
            final(self).wf(),
            final(self)@ == (CallsView { closed: true, ..old(self)@ }),
            r@ == old(self)@.active,
    {
        self.closed = true;
        let mut r: Vec<u64> = Vec::new();
        let mut i: usize = 0;
        while i < self.active.len()
            invariant
                i <= self.active.len(),
                r@ == self.active@.subrange(0, i as int),
            decreases self.active.len() - i,
        {
            r.push(self.active[i]);
            assert(self.active@.subrange(0, i + 1) =~= self.active@.subrange(0, i as int).push(self.active@[i as int]));
            i = i + 1;
        }
        assert(self.active@.subrange(0, i as int) =~= self.active@);
        r
    }

    /// Whether no call is left.
    pub fn drained(&self) -> (r: bool)
        ensures
            r == (self@.active.len() == 0),
    {
        self.active.len() == 0
    }
}

/// A closed scope takes no call.
pub proof fn closed_scopes_take_nothing(c: CallsView)
    requires
        c.closed,
    ensures
        refusal(c) == Some(DispatchFault::Closed),
{
}

/// A call is taken while the scope is open and has room, and refused for the reason otherwise.
pub proof fn open_scopes_take_calls(c: CallsView)
    ensures
        refusal(c) == Some(DispatchFault::Closed) <==> c.closed,
        refusal(c) == Some(DispatchFault::Capacity) <==> !c.closed && (c.active.len() >= MAX_CALLS || c.next == u64::MAX),
        refusal(c) is None <==> !c.closed && c.active.len() < MAX_CALLS && c.next < u64::MAX,
{
}

} // verus!
