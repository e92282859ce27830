//! Bounded transport receipts. Business authority remains in recovery services.
use super::{is_id, reports, unavailable, valid_id, ApiError, Refusal};
use crate::json::values::{opt_json, text_or_null, text_value};
use crate::json::{alike, encoded, fields_of, group_json, member, Json, Tree};
use crate::table::Table;
use crate::text::{byte_len, copied, joined, opt, same, utf8_len};
use vstd::prelude::*;

verus! {

broadcast use group_json;

pub const MAX_RECORD_BYTES: usize = 1048576;

pub const MAX_JOURNAL_BYTES: u64 = 67108864;

pub const MAX_OPERATIONS: usize = 1000;

pub const MAX_EVENTS: usize = 8000;

/// A receipt of one accepted operation.
pub struct Operation {
    pub id: String,
    pub kind: String,
    pub status: String,
    pub updated_at: u64,
    pub result: Option<Json>,
    pub error: Option<String>,
    pub auto_retry: bool,
    pub context: Json,
}

#[verifier::ext_equal]
pub struct ReceiptView {
    pub id: Seq<char>,
    pub kind: Seq<char>,
    pub status: Seq<char>,
    pub updated_at: u64,
    pub result: Option<Tree>,
    pub error: Option<Seq<char>>,
    pub auto_retry: bool,
    pub context: Tree,
}

pub open spec fn opt_tree(v: Option<Json>) -> Option<Tree> {
    match v {
        Some(v) => Some(v@),
        None => None,
    }
}

impl View for Operation {
    type V = ReceiptView;

    open spec fn view(&self) -> ReceiptView {
        ReceiptView {
            id: self.id@,
            kind: self.kind@,
            status: self.status@,
            updated_at: self.updated_at,
            result: opt_tree(self.result),
            error: opt(self.error),
            auto_retry: self.auto_retry,
            context: self.context@,
        }
    }
}

impl Clone for Operation {
    fn clone(&self) -> (r: Self)
        ensures
            r@ == self@,
    {
        Operation {
            id: self.id.clone(),
            kind: self.kind.clone(),
            status: self.status.clone(),
            updated_at: self.updated_at,
            result: match &self.result {
                Some(v) => Some(v.copy()),
                None => None,
            },
            error: self.error.clone(),
            auto_retry: self.auto_retry,
            context: self.context.copy(),
        }
    }
}

/// A receipt as it is written, its fields in this order.
pub open spec fn receipt_tree(o: ReceiptView) -> Tree {
    Tree::Object(
        seq![
            ("id"@, Tree::Text(o.id)),
            ("kind"@, Tree::Text(o.kind)),
            ("status"@, Tree::Text(o.status)),
            ("updatedAt"@, Tree::Unsigned(o.updated_at)),
            (
                "result"@,
                match o.result {
                    Some(v) => v,
                    None => Tree::Null,
                },
            ),
            ("error"@, text_or_null(o.error)),
            ("auto_retry"@, Tree::Bool(o.auto_retry)),
            ("context"@, o.context),
        ],
    )
}

/// A receipt's line in the journal.
pub open spec fn line_of(o: ReceiptView) -> Seq<char> {
    encoded(receipt_tree(o)) + "\n"@
}

impl Operation {
    pub fn to_json(&self) -> (r: Json)
        ensures
            r@ == receipt_tree(self@),
    {
        let mut fields: Vec<(String, Json)> = Vec::new();
        fields.push((copied("id"), text_value(&self.id)));
        fields.push((copied("kind"), text_value(&self.kind)));
        fields.push((copied("status"), text_value(&self.status)));
        fields.push((copied("updatedAt"), Json::Unsigned(self.updated_at)));
        fields.push(
            (
                copied("result"),
                match &self.result {
                    Some(v) => v.copy(),
                    None => Json::Null,
                },
            ),
        );
        fields.push((copied("error"), opt_json(&self.error)));
        fields.push((copied("auto_retry"), Json::Bool(self.auto_retry)));
        fields.push((copied("context"), self.context.copy()));
        let ghost all = fields@;
        let r = Json::Object(fields);
        proof {
            let want = receipt_tree(self@)->Object_0;
            assert(fields_of(all).len() == 8);
            assert(fields_of(all) =~= want);
        }
        r
    }

    /// This receipt's line in the journal.
    pub fn line(&self) -> (r: String)
        ensures
            r@ == line_of(self@),
    {
        let text = self.to_json().render();
        joined(&text, "\n")
    }
}

pub open spec fn is_status(s: Seq<char>) -> bool {
    s == "running"@ || s == "completed"@ || s == "failed"@ || s == "canceled"@ || s == "unknown"@
}

/// A receipt that is one at all.
pub open spec fn record_valid(o: ReceiptView) -> bool {
    &&& is_id(o.id) && is_id(o.kind)
    &&& o.context is Object
    &&& !o.auto_retry
    &&& o.updated_at != 0
    &&& is_status(o.status)
}

/// The terminal status that a result stands for.
pub open spec fn status_for(status: Seq<char>) -> Seq<char> {
    if status == "unknown"@ {
        "unknown"@
    } else if status == "failed"@ {
        "failed"@
    } else if status == "canceled"@ {
        "canceled"@
    } else {
        "completed"@
    }
}

/// What a result says of itself.
pub open spec fn said(result: Option<Tree>) -> Option<Seq<char>> {
    match result {
        Some(t) => match member(t, "status"@) {
            Some(Tree::Text(s)) => Some(s),
            _ => None,
        },
        None => None,
    }
}

/// Whether a terminal receipt's result and error go with its status.
pub open spec fn outcome_consistent(o: ReceiptView) -> bool {
    if o.status == "unknown"@ { o.result is Some || o.error is Some } else { o.result is Some && o.error is None }
}

/// Why a receipt cannot follow the one before it. An operation runs once, and ends once.
pub open spec fn transition_fault(previous: Option<ReceiptView>, o: ReceiptView) -> Option<Refusal> {
    if !record_valid(o) {
        Some(unavailable("invalid operation journal record"@))
    } else if o.status == "running"@ {
        if previous is Some || o.result is Some || o.error is Some {
            Some(unavailable("operation journal cannot replay a call or attach a result before completion"@))
        } else {
            None
        }
    } else {
        match previous {
            None => Some(unavailable("operation journal completion has no accepted intent"@)),
            Some(p) => if p.status != "running"@ || p.kind != o.kind || !alike(p.context, o.context) {
                Some(unavailable("operation journal changes identity or an already terminal outcome"@))
            } else if !outcome_consistent(o) {
                Some(unavailable("operation journal outcome has no consistent result or error"@))
            } else if said(o.result) is Some && o.status != status_for(said(o.result)->0) {
                Some(unavailable("operation journal result disagrees with its terminal status"@))
            } else {
                None
            },
        }
    }
}

pub open spec fn maybe_receipt(o: Option<&Operation>) -> Option<ReceiptView> {
    match o {
        Some(o) => Some(o@),
        None => None,
    }
}

/// What a value says of itself.
pub fn own_status(value: &Json) -> (r: Option<&str>)
    ensures
        match r {
            Some(s) => said(Some(value@)) == Some(s@),
            None => said(Some(value@)) is None,
        },
{
    match value.get("status") {
        Some(Json::Text(s)) => Some(s.as_str()),
        _ => None,
    }
}

pub fn terminal(status: &str) -> (r: &'static str)
    ensures
        r@ == status_for(status@),
{
    if same(status, "unknown") {
        "unknown"
    } else if same(status, "failed") {
        "failed"
    } else if same(status, "canceled") {
        "canceled"
    } else {
        "completed"
    }
}

pub fn validate_transition(previous: Option<&Operation>, value: &Operation) -> (r: Result<(), ApiError>)
    ensures
        reports(r, transition_fault(maybe_receipt(previous), value@)),
{
    let is_object = match &value.context {
        Json::Object(_) => true,
        _ => false,
    };
    let s = &value.status;
    let known = same(s, "running") || same(s, "completed") || same(s, "failed") || same(s, "canceled") || same(s, "unknown");
    if !valid_id(&value.id) || !valid_id(&value.kind) || !is_object || value.auto_retry || value.updated_at == 0 || !known {
        return Err(ApiError::unavailable("invalid operation journal record"));
    }
    if same(s, "running") {
        if previous.is_some() || value.result.is_some() || value.error.is_some() {
            return Err(
                ApiError::unavailable("operation journal cannot replay a call or attach a result before completion"),
            );
        }
        return Ok(());
    }
    let p = match previous {
        None => {
            return Err(ApiError::unavailable("operation journal completion has no accepted intent"));
        },
        Some(p) => p,
    };
    if !same(&p.status, "running") || !same(&p.kind, &value.kind) || !p.context.equals(&value.context) {
        return Err(ApiError::unavailable("operation journal changes identity or an already terminal outcome"));
    }
    let unknown = same(s, "unknown");
    if (!unknown && (value.result.is_none() || value.error.is_some())) || (unknown && value.result.is_none()
        && value.error.is_none()) {
        return Err(ApiError::unavailable("operation journal outcome has no consistent result or error"));
    }
    if let Some(result) = &value.result {
        if let Some(status) = own_status(result) {
            if !same(s, terminal(status)) {
                return Err(ApiError::unavailable("operation journal result disagrees with its terminal status"));
            }
        }
    }
    Ok(())
}

/// The receipts of a server: the last of each operation, and all of them in order. `bytes`
/// is the length of the journal's file; a journal that failed takes no more.
pub struct Journal {
    pub records: Table<Operation>,
    pub events: Vec<Operation>,
    pub bytes: u64,
    pub failed: bool,
}

pub struct JournalView {
    pub records: Map<Seq<char>, ReceiptView>,
    pub events: Seq<ReceiptView>,
    pub bytes: u64,
    pub failed: bool,
}

pub open spec fn receipts(m: Map<Seq<char>, Operation>) -> Map<Seq<char>, ReceiptView> {
    m.map_values(|o: Operation| o@)
}

pub open spec fn receipts_of(list: Seq<Operation>) -> Seq<ReceiptView> {
    list.map_values(|o: Operation| o@)
}

impl View for Journal {
    type V = JournalView;

    open spec fn view(&self) -> JournalView {
        JournalView {
            records: receipts(self.records@),
            events: receipts_of(self.events@),
            bytes: self.bytes,
            failed: self.failed,
        }
    }
}

pub open spec fn last_of(j: JournalView, id: Seq<char>) -> Option<ReceiptView> {
    if j.records.contains_key(id) { Some(j.records[id]) } else { None }
}

pub open spec fn full() -> Refusal {
    unavailable("operation journal capacity exceeded"@)
}

/// Whether a receipt would not fit any more.
pub open spec fn crowded(j: JournalView, o: ReceiptView) -> bool {
    j.events.len() >= MAX_EVENTS || (!j.records.contains_key(o.id) && j.records.dom().len() >= MAX_OPERATIONS)
}

/// Why a receipt cannot be appended.
pub open spec fn append_fault(j: JournalView, o: ReceiptView) -> Option<Refusal> {
    if j.failed {
        Some(unavailable("operation journal unavailable"@))
    } else {
        match transition_fault(last_of(j, o.id), o) {
            Some(f) => Some(f),
            None => if byte_len(line_of(o)) > MAX_RECORD_BYTES || j.bytes + byte_len(line_of(o)) > MAX_JOURNAL_BYTES || crowded(
                j,
                o,
            ) {
                Some(full())
            } else {
                None
            },
        }
    }
}

/// Why a receipt that was read back cannot be taken.
pub open spec fn replay_fault(j: JournalView, o: ReceiptView) -> Option<Refusal> {
    match transition_fault(last_of(j, o.id), o) {
        Some(f) => Some(f),
        None => if crowded(j, o) { Some(full()) } else { None },
    }
}

pub open spec fn taken(j: JournalView, o: ReceiptView, bytes: u64) -> JournalView {
    JournalView { records: j.records.insert(o.id, o), events: j.events.push(o), bytes, ..j }
}

/// An operation that a restart cut short.
pub open spec fn cut_short(o: ReceiptView, now: u64) -> ReceiptView {
    ReceiptView {
        status: "unknown"@,
        error: Some("host restarted before completion; do not automatically retry"@),
        updated_at: now,
        ..o
    }
}

/// The first `n` receipts of operations still running, in the order of their identities.
pub open spec fn running_of(list: Seq<(String, Operation)>, n: nat) -> Seq<ReceiptView>
    decreases n,
{
    if n == 0 {
        Seq::empty()
    } else {
        let front = running_of(list, (n - 1) as nat);
        if list[n - 1].1@.status == "running"@ { front.push(list[n - 1].1@) } else { front }
    }
}

pub open spec fn field_names() -> Seq<Seq<char>> {
    seq!["id"@, "kind"@, "status"@, "updatedAt"@, "result"@, "error"@, "auto_retry"@, "context"@]
}

/// A line whose fields are exactly a receipt's.
pub open spec fn fields_fault(t: Tree) -> Option<Refusal> {
    match t {
        Tree::Object(fields) => if fields.len() != 8 || exists|i: int|
            0 <= i < 8 && member(t, #[trigger] field_names()[i]) is None {
            Some(unavailable("operation journal record fields do not match this version"@))
        } else {
            None
        },
        _ => Some(unavailable("operation journal record must be an object"@)),
    }
}

pub fn check_fields(raw: &Json) -> (r: Result<(), ApiError>)
    ensures
        reports(r, fields_fault(raw@)),
{
    let count = match raw {
        Json::Object(fields) => {
            assert(raw@ == Tree::Object(fields_of(fields@)));
            fields.len()
        },
        _ => {
            return Err(ApiError::unavailable("operation journal record must be an object"));
        },
    };
    let ok = raw.get("id").is_some() && raw.get("kind").is_some() && raw.get("status").is_some() && raw.get(
        "updatedAt",
    ).is_some() && raw.get("result").is_some() && raw.get("error").is_some() && raw.get("auto_retry").is_some() && raw.get(
        "context",
    ).is_some();
    proof {
        let n = field_names();
        assert(n[0] == "id"@ && n[1] == "kind"@ && n[2] == "status"@ && n[3] == "updatedAt"@ && n[4] == "result"@ && n[5]
            == "error"@ && n[6] == "auto_retry"@ && n[7] == "context"@);
        if ok {
            assert forall|i: int| 0 <= i < 8 implies member(raw@, #[trigger] n[i]) is Some by {
                assert(i == 0 || i == 1 || i == 2 || i == 3 || i == 4 || i == 5 || i == 6 || i == 7);
            }
        }
    }
    if count != 8 || !ok {
        return Err(ApiError::unavailable("operation journal record fields do not match this version"));
    }
    Ok(())
}

/// A line that was read, of this length with its end.
pub fn check_line(bytes: usize, ended: bool) -> (r: Result<(), ApiError>)
    ensures
        reports(
            r,
            if bytes > MAX_RECORD_BYTES || !ended {
                Some(unavailable("operation journal contains an oversized or incomplete record"@))
            } else {
                None
            },
        ),
{
    if bytes > MAX_RECORD_BYTES || !ended {
        return Err(ApiError::unavailable("operation journal contains an oversized or incomplete record"));
    }
    Ok(())
}

impl Journal {
    /// The map of the last receipts names each by its own identity.
    pub open spec fn wf(&self) -> bool {
        &&& self.records.wf()
        &&& forall|id: Seq<char>| #[trigger] self@.records.contains_key(id) ==> self@.records[id].id == id
        &&& self.bytes <= MAX_JOURNAL_BYTES
    }

    /// A journal whose file has this many bytes, none of them read yet.
    pub fn open(bytes: u64) -> (r: Result<Self, ApiError>)
        ensures
            match r {
                Ok(j) => bytes <= MAX_JOURNAL_BYTES && j.wf() && j@.records == Map::<Seq<char>, ReceiptView>::empty()
                    && j@.events.len() == 0 && j@.bytes == bytes && !j@.failed,
                Err(e) => bytes > MAX_JOURNAL_BYTES && e@ == full(),
            },
    {
        if bytes > MAX_JOURNAL_BYTES {
            return Err(ApiError::unavailable("operation journal capacity exceeded"));
        }
        let j = Journal { records: Table::new(), events: Vec::new(), bytes, failed: false };
        assert(j@.records =~= Map::<Seq<char>, ReceiptView>::empty());
        Ok(j)
    }

    fn is_crowded(&self, value: &Operation) -> (r: bool)
        requires
            self.wf(),
        ensures
            r == crowded(self@, value@),
    {
        proof {
            self.records.lists_its_entries();
            assert(self@.records.dom() =~= self.records@.dom());
        }
        self.events.len() >= MAX_EVENTS || (!self.records.has(&value.id) && self.records.len() >= MAX_OPERATIONS)
    }

    fn take(&mut self, value: Operation, bytes: u64)
        requires
            old(self).wf(),
            bytes <= MAX_JOURNAL_BYTES,
        ensures
            final(self).wf(),
            final(self)@ == taken(old(self)@, value@, bytes),
    {
        let ghost before = self@;
        let event = value.clone();
        self.records.insert(value.id.clone(), value);
        self.events.push(event);
        self.bytes = bytes;
        assert(self@.records =~= before.records.insert(value@.id, value@));
        assert(self@.events =~= before.events.push(value@));
    }

    /// Takes a receipt that was read back.
    pub fn replay(&mut self, value: Operation) -> (r: Result<(), ApiError>)
        requires
            old(self).wf(),
        ensures
            final(self).wf(),
            reports(r, replay_fault(old(self)@, value@)),
            final(self)@ == (if r is Ok { taken(old(self)@, value@, old(self)@.bytes) } else { old(self)@ }),
    {
        if let Err(e) = validate_transition(self.records.get(&value.id), &value) {
            return Err(e);
        }
        if self.is_crowded(&value) {
            return Err(ApiError::unavailable("operation journal capacity exceeded"));
        }
        let bytes = self.bytes;
        self.take(value, bytes);
        Ok(())
    }

    /// Whether a receipt can be appended now; its line is then written before `commit`.
    pub fn reserve(&self, value: &Operation) -> (r: Result<(), ApiError>)
        requires
            self.wf(),
        ensures
            reports(r, append_fault(self@, value@)),
    {
        if self.failed {
            return Err(ApiError::unavailable("operation journal unavailable"));
        }
        if let Err(e) = validate_transition(self.records.get(&value.id), value) {
            return Err(e);
        }
        let bytes = utf8_len(&value.line());
        if bytes > MAX_RECORD_BYTES || self.bytes + bytes as u64 > MAX_JOURNAL_BYTES || self.is_crowded(value) {
            return Err(ApiError::unavailable("operation journal capacity exceeded"));
        }
        Ok(())
    }

    /// Takes a receipt whose line was written.
    pub fn commit(&mut self, value: Operation)
        requires
            old(self).wf(),
            append_fault(old(self)@, value@) is None,
        ensures
            final(self).wf(),
            final(self)@ == taken(old(self)@, value@, (old(self)@.bytes + byte_len(line_of(value@))) as u64),
    {
        let bytes = utf8_len(&value.line());
        let total = self.bytes + bytes as u64;
        self.take(value, total);
    }

    /// The operations still running, as a restart leaves them.
    pub fn interrupted(&self, now: u64) -> (r: Vec<Operation>)
        requires
            self.wf(),
        ensures
            receipts_of(r@) == running_of(self.records.listed(), self.records.listed().len()).map_values(
                |o: ReceiptView| cut_short(o, now),
            ),
    {
        let ghost list = self.records.listed();
        let mut r: Vec<Operation> = Vec::new();
        let mut i: usize = 0;
        assert(receipts_of(r@) =~= running_of(list, 0).map_values(|o: ReceiptView| cut_short(o, now)));
        while i < self.records.len()
            invariant
                i <= list.len(),
                list == self.records.listed(),
                receipts_of(r@) == running_of(list, i as nat).map_values(|o: ReceiptView| cut_short(o, now)),
            decreases list.len() - i,
        {
            let ghost before = receipts_of(r@);
            let ghost front = running_of(list, i as nat);
            let o = self.records.value(i);
            if same(&o.status, "running") {
                let mut next = o.clone();
                next.status = copied("unknown");
                next.error = Some(copied("host restarted before completion; do not automatically retry"));
                next.updated_at = now;
                assert(next@ == cut_short(o@, now));
                r.push(next);
                assert(receipts_of(r@) =~= before.push(cut_short(o@, now)));
                assert(front.push(o@).map_values(|o: ReceiptView| cut_short(o, now)) =~= before.push(cut_short(o@, now)));
            }
            i = i + 1;
        }
        r
    }
}

} // verus!
