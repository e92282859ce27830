//! What a console accepts, and what became of it.
use super::journal::{
    append_fault, last_of, own_status, receipts, said, status_for, taken, terminal, Journal, JournalView, Operation,
    ReceiptView,
};
use super::{
    bad_request, conflicting, is_id, refusal, reports, unavailable, valid_id, ApiError, Refusal, FORBIDDEN,
    TOO_MANY_REQUESTS,
};
use crate::json::values::{empty_object, object, text_value, with};
use crate::json::{group_json, member, with_member, Json, Tree};
use crate::table::Table;
use crate::text::{byte_len, copied, listed, same, texts};
use vstd::prelude::*;

verus! {

broadcast use group_json;

/// Operations that may be active at once.
pub const MAX_CALLS: usize = 8;

/// Operations that a console accepts over its life.
pub const MAX_ACCEPTED: usize = 1000;

/// The accepting side of a server. `calls` are the active operations, each with whether its
/// cancellation was requested.
pub struct Console {
    pub permissions: Vec<String>,
    pub accepting: bool,
    pub journal: Journal,
    pub calls: Table<bool>,
}

pub struct ConsoleView {
    pub permissions: Seq<Seq<char>>,
    pub accepting: bool,
    pub journal: JournalView,
    pub calls: Map<Seq<char>, bool>,
}

impl View for Console {
    type V = ConsoleView;

    open spec fn view(&self) -> ConsoleView {
        ConsoleView {
            permissions: texts(self.permissions@),
            accepting: self.accepting,
            journal: self.journal@,
            calls: self.calls@,
        }
    }
}

pub open spec fn shutting_down() -> Refusal {
    unavailable("host is shutting down"@)
}

/// Why the operator may not do something.
pub open spec fn permission_fault(c: ConsoleView, permission: Seq<char>) -> Option<Refusal> {
    if !c.accepting {
        Some(shutting_down())
    } else if c.permissions.contains(permission) {
        None
    } else {
        Some(refusal(FORBIDDEN, "forbidden"@, "operator lacks required permission"@))
    }
}

pub open spec fn task_of(context: Tree) -> Option<Seq<char>> {
    match member(context, "taskId"@) {
        Some(Tree::Text(t)) => Some(t),
        _ => None,
    }
}

/// Some accepted repair already stands for the task.
pub open spec fn task_taken(j: JournalView, task: Seq<char>) -> bool {
    exists|id: Seq<char>| #[trigger] j.records.contains_key(id) && repairs_task(j.records[id], task)
}

pub open spec fn repairs_task(o: ReceiptView, task: Seq<char>) -> bool {
    o.kind == "repair"@ && task_of(o.context) == Some(task)
}

/// The receipt that an operation is accepted with.
pub open spec fn running(id: Seq<char>, kind: Seq<char>, context: Tree, now: u64) -> ReceiptView {
    ReceiptView {
        id,
        kind,
        status: "running"@,
        updated_at: now,
        result: None,
        error: None,
        auto_retry: false,
        context,
    }
}

/// Why an operation is not accepted.
pub open spec fn begin_fault(c: ConsoleView, id: Seq<char>, kind: Seq<char>, context: Tree, now: u64) -> Option<Refusal> {
    if !is_id(id) {
        Some(bad_request("invalid operation_id"@))
    } else if c.journal.records.contains_key(id) {
        Some(conflicting("operation_id already accepted; query its result"@))
    } else if kind == "repair"@ && task_of(context) is Some && task_taken(c.journal, task_of(context)->0) {
        Some(
            conflicting(
                "repair task_id already accepted; inspect its existing repair instead of replaying it"@,
            ),
        )
    } else if c.journal.records.dom().len() >= MAX_ACCEPTED {
        Some(unavailable("operation capacity reached"@))
    } else if !c.accepting {
        Some(shutting_down())
    } else if c.calls.dom().len() >= MAX_CALLS {
        Some(refusal(TOO_MANY_REQUESTS, "capacity"@, "too many active operations"@))
    } else {
        append_fault(c.journal, running(id, kind, context, now))
    }
}

pub open spec fn begun(c: ConsoleView, o: ReceiptView) -> ConsoleView {
    ConsoleView {
        journal: taken(c.journal, o, (c.journal.bytes + byte_len(super::journal::line_of(o))) as u64),
        calls: c.calls.insert(o.id, false),
        ..c
    }
}

pub enum Outcome {
    /// A value that says what became of the operation.
    Value(Json),
    /// The call failed: what became of it is not known.
    Failed(String),
}

pub enum OutcomeView {
    Value(Tree),
    Failed(Seq<char>),
}

impl View for Outcome {
    type V = OutcomeView;

    open spec fn view(&self) -> OutcomeView {
        match self {
            Outcome::Value(v) => OutcomeView::Value(v@),
            Outcome::Failed(m) => OutcomeView::Failed(m@),
        }
    }
}

/// The receipt that an operation ends with.
pub open spec fn ended(o: ReceiptView, outcome: OutcomeView, now: u64) -> ReceiptView {
    match outcome {
        OutcomeView::Value(v) => ReceiptView {
            status: match said(Some(v)) {
                Some(s) => status_for(s),
                None => "completed"@,
            },
            result: Some(v),
            updated_at: now,
            ..o
        },
        OutcomeView::Failed(m) => ReceiptView { status: "unknown"@, error: Some(m), updated_at: now, ..o },
    }
}

/// What is known of an operation whose end could not be written.
pub open spec fn lost(o: ReceiptView) -> ReceiptView {
    ReceiptView {
        status: "unknown"@,
        result: None,
        error: Some("completion could not be persisted; do not retry"@),
        ..o
    }
}

/// The console once an operation's end was written.
pub open spec fn settled(c: ConsoleView, o: ReceiptView) -> ConsoleView {
    ConsoleView {
        journal: taken(c.journal, o, (c.journal.bytes + byte_len(super::journal::line_of(o))) as u64),
        calls: c.calls.remove(o.id),
        ..c
    }
}

/// The console once an operation's end was lost; `failed` says whether a write failed.
pub open spec fn forgone(c: ConsoleView, o: ReceiptView, failed: bool) -> ConsoleView {
    ConsoleView {
        journal: JournalView {
            records: c.journal.records.insert(o.id, lost(o)),
            failed: c.journal.failed || failed,
            ..c.journal
        },
        calls: c.calls.remove(o.id),
        ..c
    }
}

/// What to do with an operation's end.
pub enum Ending {
    /// Nothing is known of the operation.
    Unheard,
    /// Its line is written next.
    Write(Operation),
    /// It cannot be written; the operation is already recorded as unknown.
    Lost,
}

/// What a request asks for.
#[derive(Debug, Clone, Copy, PartialEq, Eq, Structural)]
pub enum Ask {
    Projects,
    RunHarness,
    RunRepair,
    Decide,
    Apply,
    Reconcile,
    Simulate,
    Cancel,
    ReadLogs,
    QueryExtension,
    ReadMonitors,
    ReadMonitorLogs,
    ReadIncidents,
    Acknowledge,
}

/// Whether permissions cover a request. Reading what a monitor recorded goes through an
/// extension; acknowledging an incident means reading it.
pub open spec fn permits(permissions: Seq<Seq<char>>, ask: Ask) -> bool {
    match ask {
        Ask::Projects => permissions.contains("harness.projects"@),
        Ask::RunHarness => permissions.contains("harness.run"@),
        Ask::RunRepair => permissions.contains("repair.run"@),
        Ask::Decide => permissions.contains("approval.decide"@),
        Ask::Apply => permissions.contains("approval.apply"@),
        Ask::Reconcile => permissions.contains("approval.reconcile"@),
        Ask::Simulate => permissions.contains("simulation.run"@),
        Ask::Cancel => permissions.contains("operation.cancel"@),
        Ask::ReadLogs => permissions.contains("logs.read"@),
        Ask::QueryExtension => permissions.contains("extension.read"@),
        Ask::ReadMonitors => permissions.contains("monitor.read"@),
        Ask::ReadMonitorLogs => permissions.contains("monitor.read"@) && permissions.contains("logs.read"@)
            && permissions.contains("extension.read"@),
        Ask::ReadIncidents => permissions.contains("incident.read"@),
        Ask::Acknowledge => permissions.contains("incident.read"@) && permissions.contains("incident.acknowledge"@),
    }
}

/// Why a request is refused before it is looked at.
pub open spec fn ask_fault(c: ConsoleView, ask: Ask) -> Option<Refusal> {
    if !c.accepting {
        Some(shutting_down())
    } else if permits(c.permissions, ask) {
        None
    } else {
        Some(refusal(FORBIDDEN, "forbidden"@, "operator lacks required permission"@))
    }
}

/// Whether a request may change something.
pub open spec fn acts(ask: Ask) -> bool {
    match ask {
        Ask::RunHarness | Ask::RunRepair | Ask::Decide | Ask::Apply | Ask::Reconcile | Ask::Simulate | Ask::Cancel
        | Ask::Acknowledge => true,
        _ => false,
    }
}

/// Whether a permission is for looking only.
pub open spec fn looks(permission: Seq<char>) -> bool {
    permission == "harness.projects"@ || permission == "logs.read"@ || permission == "extension.read"@ || permission
        == "monitor.read"@ || permission == "incident.read"@
}

impl Console {
    pub open spec fn wf(&self) -> bool {
        self.journal.wf() && self.calls.wf()
    }

    pub fn new(permissions: Vec<String>, journal: Journal) -> (r: Self)
        requires
            journal.wf(),
        ensures
            r.wf(),
            r@ == (ConsoleView {
                permissions: texts(permissions@),
                accepting: true,
                journal: journal@,
                calls: Map::empty(),
            }),
    {
        Console { permissions, accepting: true, journal, calls: Table::new() }
    }

    /// Whether the operator may do something now.
    pub fn require(&self, permission: &str) -> (r: Result<(), ApiError>)
        ensures
            reports(r, permission_fault(self@, permission@)),
    {
        if !self.accepting {
            return Err(ApiError::unavailable("host is shutting down"));
        }
        if listed(&self.permissions, permission) {
            Ok(())
        } else {
            Err(ApiError::new(FORBIDDEN, "forbidden", "operator lacks required permission"))
        }
    }

    fn holds(&self, permission: &str) -> (r: bool)
        ensures
            r == self@.permissions.contains(permission@),
    {
        listed(&self.permissions, permission)
    }

    /// Whether the operator may make a request now.
    pub fn may(&self, ask: Ask) -> (r: bool)
        ensures
            r == (self@.accepting && permits(self@.permissions, ask)),
    {
        self.accepting && match ask {
            Ask::Projects => self.holds("harness.projects"),
            Ask::RunHarness => self.holds("harness.run"),
            Ask::RunRepair => self.holds("repair.run"),
            Ask::Decide => self.holds("approval.decide"),
            Ask::Apply => self.holds("approval.apply"),
            Ask::Reconcile => self.holds("approval.reconcile"),
            Ask::Simulate => self.holds("simulation.run"),
            Ask::Cancel => self.holds("operation.cancel"),
            Ask::ReadLogs => self.holds("logs.read"),
            Ask::QueryExtension => self.holds("extension.read"),
            Ask::ReadMonitors => self.holds("monitor.read"),
            Ask::ReadMonitorLogs => self.holds("monitor.read") && self.holds("logs.read") && self.holds("extension.read"),
            Ask::ReadIncidents => self.holds("incident.read"),
            Ask::Acknowledge => self.holds("incident.read") && self.holds("incident.acknowledge"),
        }
    }

    /// Refuses a request that the operator may not make now.
    pub fn allow(&self, ask: Ask) -> (r: Result<(), ApiError>)
        ensures
            reports(r, ask_fault(self@, ask)),
    {
        if !self.accepting {
            return Err(ApiError::unavailable("host is shutting down"));
        }
        if self.may(ask) {
            Ok(())
        } else {
            Err(ApiError::new(FORBIDDEN, "forbidden", "operator lacks required permission"))
        }
    }

    fn is_task_taken(&self, task: &str) -> (r: bool)
        requires
            self.wf(),
        ensures
            r == task_taken(self@.journal, task@),
    {
        let records = &self.journal.records;
        let ghost all = self@.journal.records;
        let mut i: usize = 0;
        while i < records.len()
            invariant
                i <= records.listed().len(),
                records.wf(),
                *records == self.journal.records,
                all == receipts(records@),
                self@.journal.records == all,
                forall|j: int| 0 <= j < i ==> !repairs_task((#[trigger] records.listed()[j]).1@, task@),
            decreases records.listed().len() - i,
        {
            let o = records.value(i);
            if same(&o.kind, "repair") {
                if let Some(Json::Text(t)) = o.context.get("taskId") {
                    if same(t, task) {
                        proof {
                            records.entry_at(i as int);
                            let id = records.listed()[i as int].0@;
                            assert(all.contains_key(id));
                            assert(repairs_task(all[id], task@));
                        }
                        return true;
                    }
                }
            }
            i = i + 1;
        }
        proof {
            if task_taken(self@.journal, task@) {
                let id = choose|id: Seq<char>| #[trigger] all.contains_key(id) && repairs_task(all[id], task@);
                assert(records@.contains_key(id));
                let j = records.entry_of(id);
                assert(all[id] == records.listed()[j].1@);
            }
        }
        false
    }

    /// The receipt of an operation that is accepted now; its line is written before `accept`.
    pub fn begin(&self, id: String, kind: &str, context: Json, now: u64) -> (r: Result<Operation, ApiError>)
        requires
            self.wf(),
        ensures
            match r {
                Ok(o) => begin_fault(self@, id@, kind@, context@, now) is None && o@ == running(id@, kind@, context@, now),
                Err(e) => begin_fault(self@, id@, kind@, context@, now) == Some(e@),
            },
    {
        proof {
            self.journal.records.lists_its_entries();
            assert(self@.journal.records.dom() =~= self.journal.records@.dom());
            self.calls.lists_its_entries();
        }
        if !valid_id(&id) {
            return Err(ApiError::invalid("invalid operation_id"));
        }
        if self.journal.records.has(&id) {
            return Err(ApiError::conflict("operation_id already accepted; query its result"));
        }
        if same(kind, "repair") {
            if let Some(Json::Text(task)) = context.get("taskId") {
                if self.is_task_taken(task) {
                    return Err(
                        ApiError::conflict(
                            "repair task_id already accepted; inspect its existing repair instead of replaying it",
                        ),
                    );
                }
            }
        }
        if self.journal.records.len() >= MAX_ACCEPTED {
            return Err(ApiError::unavailable("operation capacity reached"));
        }
        if !self.accepting {
            return Err(ApiError::unavailable("host is shutting down"));
        }
        if self.calls.len() >= MAX_CALLS {
            return Err(ApiError::new(TOO_MANY_REQUESTS, "capacity", "too many active operations"));
        }
        let o = Operation {
            id,
            kind: copied(kind),
            status: copied("running"),
            updated_at: now,
            result: None,
            error: None,
            auto_retry: false,
            context,
        };
        match self.journal.reserve(&o) {
            Err(e) => Err(e),
            Ok(_) => Ok(o),
        }
    }

    /// Records an accepted operation whose line was written; it is active from now on.
    pub fn accept(&mut self, o: Operation)
        requires
            old(self).wf(),
            append_fault(old(self)@.journal, o@) is None,
        ensures
            final(self).wf(),
            final(self)@ == begun(old(self)@, o@),
    {
        let id = o.id.clone();
        self.journal.commit(o);
        self.calls.insert(id, false);
    }

    /// Records that a line could not be written: the journal takes no more.
    pub fn write_failed(&mut self)
        requires
            old(self).wf(),
        ensures
            final(self).wf(),
            final(self)@ == (ConsoleView {
                journal: JournalView { failed: true, ..old(self)@.journal },
                ..old(self)@
            }),
    {
        self.journal.failed = true;
    }

    fn forgo(&mut self, o: Operation, failed: bool)
        requires
            old(self).wf(),
        ensures
            final(self).wf(),
            final(self)@ == forgone(old(self)@, o@, failed),
    {
        let ghost before = self@.journal.records;
        let id = o.id.clone();
        let mut gone = o;
        gone.status = copied("unknown");
        gone.result = None;
        gone.error = Some(copied("completion could not be persisted; do not retry"));
        let ghost kept = gone@;
        assert(kept == lost(o@));
        self.journal.records.insert(id.clone(), gone);
        if failed {
            self.journal.failed = true;
        }
        self.calls.remove(&id);
        assert(self@.journal.records =~= before.insert(id@, kept));
    }

    /// What to do with the end of an operation.
    pub fn finish(&mut self, id: &str, outcome: Outcome, now: u64) -> (r: Ending)
        requires
            old(self).wf(),
        ensures
            final(self).wf(),
            match last_of(old(self)@.journal, id@) {
                None => r is Unheard && final(self)@ == (ConsoleView { calls: old(self)@.calls.remove(id@), ..old(self)@ }),
                Some(o) => {
                    let next = ended(o, outcome@, now);
                    if append_fault(old(self)@.journal, next) is None {
                        r is Write && r->Write_0@ == next && final(self)@ == old(self)@
                    } else {
                        r is Lost && final(self)@ == forgone(old(self)@, next, false)
                    }
                },
            },
    {
        let mut o = match self.journal.records.get(id) {
            None => {
                self.calls.remove(id);
                return Ending::Unheard;
            },
            Some(o) => o.clone(),
        };
        let ghost was = o@;
        match outcome {
            Outcome::Value(v) => {
                let status = match own_status(&v) {
                    Some(s) => terminal(s),
                    None => "completed",
                };
                o.status = copied(status);
                o.result = Some(v);
            },
            Outcome::Failed(m) => {
                o.status = copied("unknown");
                o.error = Some(m);
            },
        }
        o.updated_at = now;
        assert(o@ == ended(was, outcome@, now));
        if self.journal.reserve(&o).is_ok() {
            Ending::Write(o)
        } else {
            self.forgo(o, false);
            Ending::Lost
        }
    }

    /// Records the end of an operation; `written` says whether its line was written.
    pub fn finished(&mut self, o: Operation, written: bool)
        requires
            old(self).wf(),
            append_fault(old(self)@.journal, o@) is None,
        ensures
            final(self).wf(),
            final(self)@ == (if written { settled(old(self)@, o@) } else { forgone(old(self)@, o@, true) }),
    {
        if written {
            let id = o.id.clone();
            self.journal.commit(o);
            self.calls.remove(&id);
        } else {
            self.forgo(o, true);
        }
    }

    /// Requests the cancellation of an active operation.
    pub fn cancel(&mut self, id: &str) -> (r: Result<Json, ApiError>)
        requires
            old(self).wf(),
        ensures
            final(self).wf(),
            match r {
                Ok(v) => old(self)@.calls.contains_key(id@) && v@ == cancel_tree(id@) && final(self)@ == (ConsoleView {
                    calls: old(self)@.calls.insert(id@, true),
                    ..old(self)@
                }),
                Err(e) => !old(self)@.calls.contains_key(id@) && final(self)@ == old(self)@ && e@ == conflicting(
                    "operation is no longer active; query its recorded outcome"@,
                ),
            },
    {
        if !self.calls.has(id) {
            return Err(ApiError::conflict("operation is no longer active; query its recorded outcome"));
        }
        self.calls.insert(copied(id), true);
        let a = with(object(), "operation_id", text_value(id));
        let b = with(a, "status", text_value("cancel_requested"));
        Ok(with(b, "auto_retry", Json::Bool(false)))
    }

    /// Takes no more operations, and requests the cancellation of the active ones.
    pub fn drain(&mut self)
        requires
            old(self).wf(),
        ensures
            final(self).wf(),
            final(self)@ == drained(old(self)@),
    {
        self.accepting = false;
        let ghost start = self.calls@;
        let n = self.calls.len();
        let mut i: usize = 0;
        while i < n
            invariant
                i <= n,
                n == self.calls.listed().len(),
                self.wf(),
                !self.accepting,
                self@.permissions == old(self)@.permissions,
                self@.journal == old(self)@.journal,
                start == old(self)@.calls,
                self.calls@.dom() == start.dom(),
                forall|j: int| 0 <= j < i ==> (#[trigger] self.calls.listed()[j]).1,
            decreases n - i,
        {
            let ghost was = self.calls;
            self.calls.replace(i, true);
            proof {
                assert forall|id: Seq<char>| was@.contains_key(id) <==> self.calls@.contains_key(id) by {
                    if was@.contains_key(id) {
                        let j = was.entry_of(id);
                        self.calls.entry_at(j);
                    }
                    if self.calls@.contains_key(id) {
                        let j = self.calls.entry_of(id);
                        was.entry_at(j);
                    }
                }
                assert(self.calls@.dom() =~= was@.dom());
            }
            i = i + 1;
        }
        proof {
            let want = drained(old(self)@).calls;
            assert forall|id: Seq<char>| self.calls@.contains_key(id) implies self.calls@[id] == want[id] by {
                let j = self.calls.entry_of(id);
                assert(self.calls.listed()[j].1);
            }
            assert(self.calls@ =~= want);
        }
    }

    /// Whether nothing waits for its receipt any more.
    pub fn idle(&self) -> (r: bool)
        requires
            self.wf(),
        ensures
            r == (self@.calls == Map::<Seq<char>, bool>::empty()),
    {
        proof {
            self.calls.lists_its_entries();
            if self.calls.listed().len() == 0 {
                assert(self.calls@.dom() =~= Set::<Seq<char>>::empty());
                assert(self@.calls =~= Map::<Seq<char>, bool>::empty());
            } else {
                self.calls.entry_at(0);
            }
        }
        self.calls.len() == 0
    }

    /// The result of a shutdown whose services closed.
    pub fn shut_down(&self) -> (r: Result<(), ApiError>)
        requires
            self.wf(),
        ensures
            reports(
                r,
                if self@.calls == Map::<Seq<char>, bool>::empty() {
                    None
                } else {
                    Some(unavailable("operation receipts remain pending after shutdown"@))
                },
            ),
    {
        if self.idle() {
            Ok(())
        } else {
            Err(ApiError::unavailable("operation receipts remain pending after shutdown"))
        }
    }
}

pub open spec fn cancel_tree(id: Seq<char>) -> Tree {
    let a = with_member(empty_object(), "operation_id"@, Tree::Text(id));
    let b = with_member(a, "status"@, Tree::Text("cancel_requested"@));
    with_member(b, "auto_retry"@, Tree::Bool(false))
}

pub open spec fn drained(c: ConsoleView) -> ConsoleView {
    ConsoleView { accepting: false, calls: c.calls.map_values(|b: bool| true), ..c }
}

} // verus!
