//! Handles for provider cursors.
use super::super::{is_id, unavailable, valid_id, ApiError, Refusal};
use super::{cursor_refusal, invalid_cursor};
use crate::table::Table;
use crate::text::{
    before, byte_len, characters, copied, decimal, decimal_text, is_graphic, joined, less, less_irreflexive, same,
    utf8_len,
};
use vstd::prelude::*;

verus! {

pub const MAX_CURSOR_BYTES: usize = 4096;

pub const MAX_CURSORS: usize = 256;

/// Milliseconds that a handle lives untouched.
pub const CURSOR_TTL_MS: u64 = 1800000;

/// HTTP cursors are server-issued handles, bound to the fixed source and target.
/// Provider cursors are not accepted directly, and never expose target authority.
pub struct LogCursor {
    pub monitor_id: String,
    pub source_id: String,
    pub provider_cursor: String,
    pub touched_at: u64,
}

pub struct CursorView {
    pub monitor_id: Seq<char>,
    pub source_id: Seq<char>,
    pub provider_cursor: Seq<char>,
    pub touched_at: u64,
}

impl View for LogCursor {
    type V = CursorView;

    open spec fn view(&self) -> CursorView {
        CursorView {
            monitor_id: self.monitor_id@,
            source_id: self.source_id@,
            provider_cursor: self.provider_cursor@,
            touched_at: self.touched_at,
        }
    }
}

/// The handles issued so far; `next` numbers the next one. The view is what stands under
/// each handle; contracts speak of `next` beside it.
pub struct Cursors {
    pub entries: Table<LogCursor>,
    pub next: u64,
}

pub open spec fn handles(m: Map<Seq<char>, LogCursor>) -> Map<Seq<char>, CursorView> {
    m.map_values(|c: LogCursor| c@)
}

impl View for Cursors {
    type V = Map<Seq<char>, CursorView>;

    open spec fn view(&self) -> Map<Seq<char>, CursorView> {
        handles(self.entries@)
    }
}

pub open spec fn age(now: u64, touched: u64) -> int {
    if now >= touched { now - touched } else { 0 }
}

pub open spec fn is_for(c: CursorView, monitor: Seq<char>, source: Seq<char>) -> bool {
    c.monitor_id == monitor && c.source_id == source
}

pub open spec fn fresh(c: CursorView, now: u64) -> bool {
    age(now, c.touched_at) <= CURSOR_TTL_MS
}

/// No two handles stand for one continuation.
pub open spec fn distinct(m: Map<Seq<char>, CursorView>) -> bool {
    forall|a: Seq<char>, b: Seq<char>|
        #![trigger m[a], m[b]]
        m.contains_key(a) && m.contains_key(b) && a != b ==> !(is_for(m[a], m[b].monitor_id, m[b].source_id)
            && m[a].provider_cursor == m[b].provider_cursor)
}

/// Where a read goes on.
pub open spec fn resumed(
    m: Map<Seq<char>, CursorView>,
    monitor: Seq<char>,
    source: Seq<char>,
    cursor: Option<Seq<char>>,
    now: u64,
) -> Result<Option<Seq<char>>, Refusal> {
    match cursor {
        None => Ok(None),
        Some(c) => if c.len() == 0 {
            Ok(None)
        } else if is_id(c) && m.contains_key(c) && is_for(m[c], monitor, source) && fresh(m[c], now) {
            Ok(Some(m[c].provider_cursor))
        } else {
            Err(cursor_refusal())
        },
    }
}

pub open spec fn touched(m: Map<Seq<char>, CursorView>, id: Seq<char>, now: u64) -> Map<Seq<char>, CursorView> {
    m.insert(id, CursorView { touched_at: now, ..m[id] })
}

/// The handles that are still alive.
pub open spec fn alive(m: Map<Seq<char>, CursorView>, now: u64) -> Map<Seq<char>, CursorView> {
    m.restrict(Set::new(|id: Seq<char>| m.contains_key(id) && fresh(m[id], now)))
}

/// The handle that was touched longest ago, the first by name of several.
pub open spec fn oldest(m: Map<Seq<char>, CursorView>, id: Seq<char>) -> bool {
    &&& m.contains_key(id)
    &&& forall|k: Seq<char>|
        #[trigger] m.contains_key(k) ==> m[id].touched_at < m[k].touched_at || (m[id].touched_at == m[k].touched_at && !less(
            k,
            id,
        ))
}

pub open spec fn provider_valid(p: Seq<char>) -> bool {
    byte_len(p) <= MAX_CURSOR_BYTES && forall|i: int| 0 <= i < p.len() ==> is_graphic(#[trigger] p[i])
}

pub open spec fn handle(now: u64, n: u64) -> Seq<char> {
    "log-cursor-"@ + decimal(now as nat) + "-"@ + decimal(n as nat)
}

/// Another handle for the same continuation.
pub open spec fn known(m: Map<Seq<char>, CursorView>, monitor: Seq<char>, source: Seq<char>, provider: Seq<char>, id: Seq<char>) -> bool {
    m.contains_key(id) && is_for(m[id], monitor, source) && m[id].provider_cursor == provider
}

pub fn elapsed(now: u64, at: u64) -> (r: u64)
    ensures
        r == age(now, at),
{
    if now >= at { now - at } else { 0 }
}

fn check_provider(p: &str) -> (r: bool)
    ensures
        r == provider_valid(p@),
{
    if utf8_len(p) > MAX_CURSOR_BYTES {
        return false;
    }
    let v = characters(p);
    let mut i: usize = 0;
    while i < v.len()
        invariant
            i <= v.len(),
            v@ == p@,
            forall|j: int| 0 <= j < i ==> is_graphic(#[trigger] p@[j]),
        decreases v.len() - i,
    {
        let c: u32 = v[i] as u32;
        if c < 0x21 || c > 0x7e {
            assert(!is_graphic(p@[i as int]));
            return false;
        }
        i = i + 1;
    }
    true
}

impl Cursors {
    pub open spec fn wf(&self) -> bool {
        self.entries.wf() && distinct(self@)
    }

    pub fn new() -> (r: Self)
        ensures
            r.wf(),
            r@ == Map::<Seq<char>, CursorView>::empty(),
            r.next == 0,
    {
        let r = Cursors { entries: Table::new(), next: 0 };
        assert(r@ =~= Map::<Seq<char>, CursorView>::empty());
        r
    }

    fn touch(&mut self, id: &str, now: u64)
        requires
            old(self).wf(),
            old(self)@.contains_key(id@),
        ensures
            final(self).wf(),
            final(self)@ == touched(old(self)@, id@, now),
            final(self).next == old(self).next,
    {
        let ghost before = self@;
        let entry = match self.entries.get(id) {
            Some(c) => LogCursor {
                monitor_id: c.monitor_id.clone(),
                source_id: c.source_id.clone(),
                provider_cursor: c.provider_cursor.clone(),
                touched_at: now,
            },
            None => {
                return;
            },
        };
        self.entries.insert(copied(id), entry);
        assert(self@ =~= touched(before, id@, now));
        proof {
            let m = self@;
            assert forall|a: Seq<char>, b: Seq<char>|
                #![trigger m[a], m[b]]
                m.contains_key(a) && m.contains_key(b) && a != b implies !(is_for(m[a], m[b].monitor_id, m[b].source_id)
                && m[a].provider_cursor == m[b].provider_cursor) by {
                let x = before[a];
                let y = before[b];
                assert(before.contains_key(a) && before.contains_key(b));
            }
        }
    }

    /// Where a read goes on; a used handle lives on.
    pub fn resolve(&mut self, monitor_id: &str, source_id: &str, cursor: Option<&str>, now: u64) -> (r: Result<
        Option<String>,
        ApiError,
    >)
        requires
            old(self).wf(),
        ensures
            final(self).wf(),
            final(self).next == old(self).next,
            match r {
                Ok(p) => resumed(old(self)@, monitor_id@, source_id@, crate::harnesses::registry::wanted(cursor), now) == Ok::<
                    Option<Seq<char>>,
                    Refusal,
                >(crate::text::opt(p)) && final(self)@ == (if p is Some { touched(old(self)@, cursor->0@, now) } else {
                    old(self)@
                }),
                Err(e) => resumed(old(self)@, monitor_id@, source_id@, crate::harnesses::registry::wanted(cursor), now) == Err::<
                    Option<Seq<char>>,
                    Refusal,
                >(e@) && final(self)@ == old(self)@,
            },
    {
        let c = match cursor {
            None => {
                return Ok(None);
            },
            Some(c) => c,
        };
        if c.is_empty() {
            return Ok(None);
        }
        if !valid_id(c) {
            return Err(invalid_cursor());
        }
        let provider = match self.entries.get(c) {
            None => {
                return Err(invalid_cursor());
            },
            Some(e) => {
                if !same(&e.monitor_id, monitor_id) || !same(&e.source_id, source_id) || elapsed(now, e.touched_at)
                    > CURSOR_TTL_MS {
                    return Err(invalid_cursor());
                }
                e.provider_cursor.clone()
            },
        };
        self.touch(c, now);
        Ok(Some(provider))
    }

    /// Forgets the handles that are no longer alive.
    fn expire(&mut self, now: u64)
        requires
            old(self).wf(),
        ensures
            final(self).wf(),
            final(self)@ == alive(old(self)@, now),
            final(self).next == old(self).next,
    {
        let ghost before = self@;
        let mut kept: Table<LogCursor> = Table::new();
        let mut i: usize = 0;
        while i < self.entries.len()
            invariant
                i <= self.entries.listed().len(),
                self.entries.wf(),
                before == self@,
                kept.wf(),
                forall|k: Seq<char>| #[trigger]
                    kept@.contains_key(k) <==> exists|j: int|
                        0 <= j < i && (#[trigger] self.entries.listed()[j]).0@ == k && fresh(self.entries.listed()[j].1@, now),
                forall|k: Seq<char>| #[trigger] kept@.contains_key(k) ==> before.contains_key(k) && kept@[k]@ == before[k],
            decreases self.entries.listed().len() - i,
        {
            proof {
                self.entries.entry_at(i as int);
            }
            let e = self.entries.value(i);
            if elapsed(now, e.touched_at) <= CURSOR_TTL_MS {
                kept.insert(
                    self.entries.key(i).clone(),
                    LogCursor {
                        monitor_id: e.monitor_id.clone(),
                        source_id: e.source_id.clone(),
                        provider_cursor: e.provider_cursor.clone(),
                        touched_at: e.touched_at,
                    },
                );
            }
            i = i + 1;
        }
        proof {
            let want = alive(before, now);
            assert forall|k: Seq<char>| handles(kept@).contains_key(k) <==> want.contains_key(k) by {
                if want.contains_key(k) {
                    let j = self.entries.entry_of(k);
                    assert(self.entries.listed()[j].0@ == k);
                }
                if kept@.contains_key(k) {
                    let j = choose|j: int|
                        0 <= j < i && (#[trigger] self.entries.listed()[j]).0@ == k && fresh(self.entries.listed()[j].1@, now);
                    self.entries.entry_at(j);
                }
            }
            assert forall|k: Seq<char>| handles(kept@).contains_key(k) implies handles(kept@)[k] == want[k] by {
                assert(kept@.contains_key(k) && want.contains_key(k));
                assert(kept@[k]@ == before[k]);
            }
            assert(handles(kept@) =~= want);
            assert forall|a: Seq<char>, b: Seq<char>|
                #![trigger want[a], want[b]]
                want.contains_key(a) && want.contains_key(b) && a != b implies !(is_for(want[a], want[b].monitor_id, want[b].source_id)
                && want[a].provider_cursor == want[b].provider_cursor) by {
                let x = before[a];
                let y = before[b];
                assert(before.contains_key(a) && before.contains_key(b));
            }
        }
        self.entries = kept;
    }

    fn find(&self, monitor_id: &str, source_id: &str, provider: &str) -> (r: Option<String>)
        requires
            self.wf(),
        ensures
            match r {
                Some(id) => known(self@, monitor_id@, source_id@, provider@, id@),
                None => forall|id: Seq<char>| !known(self@, monitor_id@, source_id@, provider@, id),
            },
    {
        let mut i: usize = 0;
        while i < self.entries.len()
            invariant
                i <= self.entries.listed().len(),
                self.wf(),
                forall|j: int|
                    0 <= j < i ==> !(is_for((#[trigger] self.entries.listed()[j]).1@, monitor_id@, source_id@)
                        && self.entries.listed()[j].1@.provider_cursor == provider@),
            decreases self.entries.listed().len() - i,
        {
            proof {
                self.entries.entry_at(i as int);
            }
            let e = self.entries.value(i);
            if same(&e.monitor_id, monitor_id) && same(&e.source_id, source_id) && same(&e.provider_cursor, provider) {
                return Some(self.entries.key(i).clone());
            }
            i = i + 1;
        }
        proof {
            assert forall|id: Seq<char>| !known(self@, monitor_id@, source_id@, provider@, id) by {
                if self@.contains_key(id) {
                    let j = self.entries.entry_of(id);
                    assert(self@[id] == self.entries.listed()[j].1@);
                }
            }
        }
        None
    }

    fn eldest(&self) -> (r: String)
        requires
            self.wf(),
            self.entries.listed().len() > 0,
        ensures
            oldest(self@, r@),
    {
        let mut best: usize = 0;
        let mut i: usize = 1;
        while i < self.entries.len()
            invariant
                best < i <= self.entries.listed().len(),
                self.wf(),
                forall|j: int|
                    0 <= j < i ==> self.entries.listed()[best as int].1.touched_at < (
                    #[trigger] self.entries.listed()[j]).1.touched_at || (self.entries.listed()[best as int].1.touched_at
                        == self.entries.listed()[j].1.touched_at && best <= j),
            decreases self.entries.listed().len() - i,
        {
            if self.entries.value(i).touched_at < self.entries.value(best).touched_at {
                best = i;
            }
            i = i + 1;
        }
        let r = self.entries.key(best).clone();
        proof {
            let m = self@;
            self.entries.entry_at(best as int);
            assert forall|k: Seq<char>| #[trigger] m.contains_key(k) implies m[r@].touched_at < m[k].touched_at || (
            m[r@].touched_at == m[k].touched_at && !less(k, r@)) by {
                let j = self.entries.entry_of(k);
                assert(m[k] == self.entries.listed()[j].1@);
                if best < j {
                    assert(less(r@, k));
                    less_irreflexive(k);
                    if less(k, r@) {
                        crate::text::less_transitive(k, r@, k);
                    }
                } else {
                    less_irreflexive(k);
                }
            }
        }
        r
    }

    /// A handle for a provider's cursor: the one it has, or a new one in place of the oldest.
    pub fn issue(&mut self, monitor_id: &str, source_id: &str, provider: Option<&str>, now: u64) -> (r: Result<
        Option<String>,
        ApiError,
    >)
        requires
            old(self).wf(),
            old(self).next < u64::MAX,
        ensures
            final(self).wf(),
            issued(*old(self), monitor_id@, source_id@, crate::harnesses::registry::wanted(provider), now, r, *final(self)),
    {
        let p = match provider {
            None => {
                return Ok(None);
            },
            Some(p) => p,
        };
        if !check_provider(p) {
            return Err(ApiError::unavailable("provider returned invalid log cursor"));
        }
        let ghost start = *self;
        self.expire(now);
        let ghost kept = self@;
        if let Some(id) = self.find(monitor_id, source_id, p) {
            self.touch(&id, now);
            return Ok(Some(id));
        }
        proof {
            self.entries.lists_its_entries();
            assert(self@.dom() =~= self.entries@.dom());
        }
        if self.entries.len() >= MAX_CURSORS {
            let id = self.eldest();
            self.entries.remove(&id);
            proof {
                assert(self@ =~= kept.remove(id@));
                assert(oldest(kept, id@));
            }
        }
        let ghost room = self@;
        let n = self.next;
        self.next = n + 1;
        let mut id = joined("log-cursor-", &decimal_text(now));
        id.append("-");
        id.append(decimal_text(n).as_str());
        let entry = LogCursor {
            monitor_id: copied(monitor_id),
            source_id: copied(source_id),
            provider_cursor: copied(p),
            touched_at: now,
        };
        self.entries.insert(id.clone(), entry);
        proof {
            let m = self@;
            assert(m =~= room.insert(
                id@,
                CursorView {
                    monitor_id: monitor_id@,
                    source_id: source_id@,
                    provider_cursor: p@,
                    touched_at: now,
                },
            ));
            assert forall|a: Seq<char>, b: Seq<char>|
                #![trigger m[a], m[b]]
                m.contains_key(a) && m.contains_key(b) && a != b implies !(is_for(m[a], m[b].monitor_id, m[b].source_id)
                && m[a].provider_cursor == m[b].provider_cursor) by {
                if a == id@ {
                    assert(!known(kept, monitor_id@, source_id@, p@, b));
                } else if b == id@ {
                    assert(!known(kept, monitor_id@, source_id@, p@, a));
                } else {
                    let x = kept[a];
                    let y = kept[b];
                }
            }
        }
        Ok(Some(id))
    }
}

/// The handles after `issue` made room in `kept` and added a handle.
pub open spec fn added(
    kept: Map<Seq<char>, CursorView>,
    id: Seq<char>,
    c: CursorView,
    after: Map<Seq<char>, CursorView>,
) -> bool {
    if kept.dom().len() < MAX_CURSORS {
        after == kept.insert(id, c)
    } else {
        exists|gone: Seq<char>| #[trigger] oldest(kept, gone) && after == kept.remove(gone).insert(id, c)
    }
}

/// What issuing a handle does.
pub open spec fn issued(
    before: Cursors,
    monitor: Seq<char>,
    source: Seq<char>,
    provider: Option<Seq<char>>,
    now: u64,
    r: Result<Option<String>, ApiError>,
    after: Cursors,
) -> bool {
    match provider {
        None => r is Ok && r->Ok_0 is None && after == before,
        Some(p) => if !provider_valid(p) {
            r is Err && r->Err_0@ == unavailable("provider returned invalid log cursor"@) && after == before
        } else {
            let kept = alive(before@, now);
            &&& r is Ok && r->Ok_0 is Some
            &&& if exists|id: Seq<char>| known(kept, monitor, source, p, id) {
                known(kept, monitor, source, p, r->Ok_0->0@) && after@ == touched(kept, r->Ok_0->0@, now) && after.next
                    == before.next
            } else {
                &&& r->Ok_0->0@ == handle(now, before.next)
                &&& after.next == before.next + 1
                &&& added(
                    kept,
                    r->Ok_0->0@,
                    CursorView { monitor_id: monitor, source_id: source, provider_cursor: p, touched_at: now },
                    after@,
                )
            }
        },
    }
}

} // verus!
