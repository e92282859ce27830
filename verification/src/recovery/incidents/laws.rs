//! What holds of incidents across operations.
use super::episodes::{
    coherent, consistent, draft_keeps_consistent, drafted, has_open, incident_id_of, is_open, key_of, key_of_signal,
    next_id_is_new, open_id, signalled, Draft, KeyView,
};
use super::store::{
    acknowledged, acknowledgement, closed, commit_base, committed, consistent_is_sound, installation, outcome, planned,
    reservation, sound, sound_is_consistent, unavailable, EntryView, StoreView,
};
use super::{CommitView, EventView, Fault, IncidentStatus, IncidentView, SignalCondition, SignalView};
use crate::json::alike;
use vstd::prelude::*;

verus! {

/// Every event that the store accepts keeps its incidents sound.
pub proof fn outcome_keeps_sound(s: StoreView, event: EventView, sequence: u64)
    requires
        sound(s.records, s.sequence),
        s.sequence < u64::MAX,
        sequence == s.sequence + 1,
        outcome(s, event, sequence) is Ok,
        outcome(s, event, sequence)->Ok_0 is Some,
    ensures
        sound(outcome(s, event, sequence)->Ok_0->0.records, sequence),
{
    sound_is_consistent(s.records, s.sequence);
    match event {
        EventView::Monitor { commit } => {
            let base = commit_base(s, commit);
            commit_stays_consistent(base, commit.signals, commit.monitor_id, sequence);
            let d = drafted(base, commit.signals, commit.monitor_id, sequence)->Ok_0;
            consistent_is_sound(d.records, sequence, commit.signals.len());
        },
        EventView::Acknowledge { id, expected_revision, actor, note, now_ms } => {
            let r = acknowledged(s.records[id], actor, note, now_ms);
            let after = s.records.insert(r.id, r);
            assert(r.id == id);
            assert forall|key: KeyView, a: Seq<char>, b: Seq<char>| #[trigger]
                is_open(after, key, a) && #[trigger] is_open(after, key, b) implies a == b by {
                assert(is_open(s.records, key, a));
                assert(is_open(s.records, key, b));
            }
            assert forall|k: Seq<char>| #[trigger] after.contains_key(k) implies after[k].id == k && coherent(
                after[k],
            ) && exists|n: u64, i: nat| k == #[trigger] incident_id_of(n, i) && i < 65536 && n <= sequence by {
                assert(s.records.contains_key(k));
                let (n, i) = choose|n: u64, i: nat|
                    k == #[trigger] incident_id_of(n, i) && i < 65536 && n <= s.sequence;
                assert(k == incident_id_of(n, i) && n <= sequence);
            }
        },
    }
}

proof fn commit_stays_consistent(base: Draft, signals: Seq<SignalView>, monitor_id: Seq<char>, sequence: u64)
    requires
        consistent(base.records, sequence, 0),
        signals.len() <= 65536,
        drafted(base, signals, monitor_id, sequence) is Ok,
    ensures
        consistent(drafted(base, signals, monitor_id, sequence)->Ok_0.records, sequence, signals.len()),
    decreases signals.len(),
{
    if signals.len() > 0 {
        commit_stays_consistent(base, signals.drop_last(), monitor_id, sequence);
        let front = drafted(base, signals.drop_last(), monitor_id, sequence)->Ok_0;
        super::episodes::signal_keeps_consistent(
            front,
            signals.last(),
            monitor_id,
            sequence,
            (signals.len() - 1) as nat,
        );
    }
}

/// Acknowledging records attention: the condition, its evidence and the times
/// it was seen stay, and the incident stays unresolved.
pub proof fn acknowledgement_keeps_the_condition(
    s: StoreView,
    id: Seq<char>,
    expected_revision: u64,
    actor: Seq<char>,
    note: Seq<char>,
    now_ms: u64,
)
    requires
        sound(s.records, s.sequence),
        acknowledgement(s, id, expected_revision, actor, note, now_ms) is Ok,
    ensures
        ({
            let u = acknowledgement(s, id, expected_revision, actor, note, now_ms)->Ok_0->0;
            let was = s.records[id];
            let now = u.records[id];
            &&& s.records.contains_key(id)
            &&& u.records == s.records.insert(id, now)
            &&& u.monitors == s.monitors
            &&& now.condition == was.condition
            &&& now.evidence == was.evidence
            &&& now.summary == was.summary
            &&& now.first_seen == was.first_seen
            &&& now.last_seen == was.last_seen
            &&& now.occurrences == was.occurrences
            &&& now.status == IncidentStatus::Acknowledged
            &&& now.revision == was.revision + 1
            &&& now.acknowledgement->0.at_ms >= was.last_seen
        }),
{
}

/// An incident is acknowledged at most once: the second attempt conflicts.
pub proof fn acknowledged_once(
    s: StoreView,
    id: Seq<char>,
    expected_revision: u64,
    actor: Seq<char>,
    note: Seq<char>,
    now_ms: u64,
    t: StoreView,
    again: u64,
    actor2: Seq<char>,
    note2: Seq<char>,
    now2: u64,
)
    requires
        sound(s.records, s.sequence),
        acknowledgement(s, id, expected_revision, actor, note, now_ms) is Ok,
        t.records == acknowledgement(s, id, expected_revision, actor, note, now_ms)->Ok_0->0.records,
    ensures
        acknowledgement(t, id, again, actor2, note2, now2) is Err,
{
}

/// A monitor's commits advance by exactly one, starting at one.
pub proof fn commits_advance_by_one(s: StoreView, commit: CommitView, sequence: u64)
    requires
        committed(s, commit, sequence) is Ok,
        committed(s, commit, sequence)->Ok_0 is Some,
    ensures
        ({
            let u = committed(s, commit, sequence)->Ok_0->0;
            &&& u.monitors[commit.monitor_id].commit == commit
            &&& s.monitors.contains_key(commit.monitor_id) ==> commit.sequence == s.monitors[commit.monitor_id].commit.sequence
                + 1
            &&& !s.monitors.contains_key(commit.monitor_id) ==> commit.sequence == 1
            &&& forall|m: Seq<char>| m != commit.monitor_id ==> (u.monitors.contains_key(m) <==> s.monitors.contains_key(m))
        }),
{
}

/// Commits of one monitor keep their own clock: it never runs backwards.
pub proof fn monitor_time_is_monotone(s: StoreView, commit: CommitView, sequence: u64)
    requires
        sound(s.records, s.sequence),
        s.records.dom().finite(),
        s.sequence < u64::MAX,
        sequence == s.sequence + 1,
        committed(s, commit, sequence) is Ok,
        committed(s, commit, sequence)->Ok_0 is Some,
    ensures
        ({
            let u = committed(s, commit, sequence)->Ok_0->0;
            &&& u.monitors[commit.monitor_id].updated_at_ms >= commit.now_ms
            &&& s.monitors.contains_key(commit.monitor_id) ==> u.monitors[commit.monitor_id].updated_at_ms
                >= s.monitors[commit.monitor_id].updated_at_ms
        }),
{
    sound_is_consistent(s.records, s.sequence);
    draft_keeps_consistent(commit_base(s, commit), commit.signals, commit.monitor_id, sequence);
}

/// The number of incidents never passes the configured limit.
pub proof fn incidents_stay_within_limit(s: StoreView, commit: CommitView, sequence: u64)
    requires
        sound(s.records, s.sequence),
        s.records.dom().finite(),
        s.sequence < u64::MAX,
        sequence == s.sequence + 1,
        committed(s, commit, sequence) is Ok,
        committed(s, commit, sequence)->Ok_0 is Some,
    ensures
        committed(s, commit, sequence)->Ok_0->0.records.dom().len() <= s.max_incidents,
{
    sound_is_consistent(s.records, s.sequence);
    draft_keeps_consistent(commit_base(s, commit), commit.signals, commit.monitor_id, sequence);
}

/// A subject without an open episode gets one only by an active signal.
pub proof fn only_active_signals_open_episodes(d: Draft, s: SignalView, monitor_id: Seq<char>, sequence: u64, index: nat)
    requires
        !has_open(d.records, key_of_signal(s)),
        s.condition != SignalCondition::Active,
        signalled(d, s, monitor_id, sequence, index) is Ok,
    ensures
        signalled(d, s, monitor_id, sequence, index)->Ok_0 == d,
{
}

/// A clear signal resolves the open episode of its subject.
pub proof fn clear_resolves(d: Draft, s: SignalView, monitor_id: Seq<char>, sequence: u64, index: nat)
    requires
        consistent(d.records, sequence, index),
        index < 65536,
        has_open(d.records, key_of_signal(s)),
        s.condition == SignalCondition::Clear,
        signalled(d, s, monitor_id, sequence, index) is Ok,
    ensures
        ({
            let after = signalled(d, s, monitor_id, sequence, index)->Ok_0;
            let id = open_id(d.records, key_of_signal(s));
            &&& after.records[id].status == IncidentStatus::Resolved
            &&& after.records[id].resolved_at == Some(after.timestamp)
            &&& !has_open(after.records, key_of_signal(s))
        }),
{
    let key = key_of_signal(s);
    let id = open_id(d.records, key);
    assert(is_open(d.records, key, id));
    let after = signalled(d, s, monitor_id, sequence, index)->Ok_0;
    if has_open(after.records, key) {
        let other = open_id(after.records, key);
        assert(is_open(after.records, key, other));
        if other != id {
            assert(is_open(d.records, key, other));
        }
    }
}

/// What every later step keeps of an incident: its subject, when it began and,
/// once it is resolved, everything.
pub open spec fn continued(was: IncidentView, now: IncidentView) -> bool {
    &&& key_of(now) == key_of(was)
    &&& now.first_seen == was.first_seen
    &&& now.last_seen >= was.last_seen
    &&& now.revision >= was.revision
    &&& now.occurrences >= was.occurrences
    &&& was.status == IncidentStatus::Resolved ==> now == was
}

/// No incident is lost, none changes its subject or its beginning, and a
/// resolved one never changes again.
pub open spec fn kept(before: Map<Seq<char>, IncidentView>, after: Map<Seq<char>, IncidentView>) -> bool {
    forall|id: Seq<char>| #[trigger]
        before.contains_key(id) ==> after.contains_key(id) && continued(before[id], after[id])
}

proof fn draft_keeps_incidents(base: Draft, signals: Seq<SignalView>, monitor_id: Seq<char>, sequence: u64)
    requires
        consistent(base.records, sequence, 0),
        signals.len() <= 65536,
        drafted(base, signals, monitor_id, sequence) is Ok,
    ensures
        kept(base.records, drafted(base, signals, monitor_id, sequence)->Ok_0.records),
    decreases signals.len(),
{
    if signals.len() > 0 {
        let index = (signals.len() - 1) as nat;
        draft_keeps_incidents(base, signals.drop_last(), monitor_id, sequence);
        commit_stays_consistent(base, signals.drop_last(), monitor_id, sequence);
        let front = drafted(base, signals.drop_last(), monitor_id, sequence)->Ok_0;
        let after = drafted(base, signals, monitor_id, sequence)->Ok_0;
        let key = key_of_signal(signals.last());
        next_id_is_new(front.records, sequence, index);
        if has_open(front.records, key) {
            let id = open_id(front.records, key);
            assert(is_open(front.records, key, id));
            assert(front.records[id].id == id);
        }
        assert forall|id: Seq<char>| #[trigger] base.records.contains_key(id) implies after.records.contains_key(id)
            && continued(base.records[id], after.records[id]) by {
            assert(front.records.contains_key(id));
        }
    }
}

/// Every event that the store accepts keeps every incident: see `kept`.
pub proof fn incidents_are_kept(s: StoreView, event: EventView, sequence: u64)
    requires
        sound(s.records, s.sequence),
        s.sequence < u64::MAX,
        sequence == s.sequence + 1,
        outcome(s, event, sequence) is Ok,
        outcome(s, event, sequence)->Ok_0 is Some,
    ensures
        kept(s.records, outcome(s, event, sequence)->Ok_0->0.records),
{
    sound_is_consistent(s.records, s.sequence);
    if let EventView::Monitor { commit } = event {
        draft_keeps_incidents(commit_base(s, commit), commit.signals, commit.monitor_id, sequence);
    }
}

/// Every incident is resolved exactly when its condition is clear and exactly
/// when its resolution has a time; it was first seen no later than last, at
/// least once; and every event that the store accepts keeps it so.
pub proof fn incidents_stay_coherent(s: StoreView, event: EventView, id: Seq<char>)
    requires
        sound(s.records, s.sequence),
        s.sequence < u64::MAX,
    ensures
        s.records.contains_key(id) ==> coherent(s.records[id]),
        outcome(s, event, (s.sequence + 1) as u64) matches Ok(Some(u)) ==> u.records.contains_key(id) ==> coherent(
            u.records[id],
        ),
{
    let sequence = (s.sequence + 1) as u64;
    if outcome(s, event, sequence) is Ok && outcome(s, event, sequence)->Ok_0 is Some {
        outcome_keeps_sound(s, event, sequence);
    }
}

/// A closed store reads as before and takes no event any more, not even the
/// latest commit sent again. Closing it again changes nothing.
pub proof fn closed_stores_only_read(s: StoreView, event: EventView, line: nat)
    ensures
        closed(s).records == s.records,
        closed(s).monitors == s.monitors,
        closed(s).sequence == s.sequence,
        planned(closed(s), event) == Err::<Option<EntryView>, Fault>(
            Fault::Unavailable("previous write failed; reopen after checking storage"@),
        ),
        reservation(closed(s), line) == Err::<StoreView, Fault>(
            Fault::Unavailable("previous write failed; reopen after checking storage"@),
        ),
        closed(closed(s)) == closed(s),
{
}

/// A line whose write has begun and was never installed leaves incidents,
/// checkpoints, sequence and size as they were, and the store takes no event
/// any more.
pub proof fn failed_writes_change_nothing(s: StoreView, line: nat, event: EventView, more: nat)
    requires
        reservation(s, line) is Ok,
    ensures
        ({
            let t = reservation(s, line)->Ok_0;
            &&& t.records == s.records
            &&& t.monitors == s.monitors
            &&& t.sequence == s.sequence
            &&& t.bytes == s.bytes
            &&& planned(t, event) == Err::<Option<EntryView>, Fault>(
                Fault::Unavailable("previous write failed; reopen after checking storage"@),
            )
            &&& reservation(t, more) == Err::<StoreView, Fault>(
                Fault::Unavailable("previous write failed; reopen after checking storage"@),
            )
        }),
{
}

/// A planned line that is reserved and written is installed: the store then
/// holds what the event leads to, has grown by the line, and takes the next event.
pub proof fn written_lines_are_installed(s: StoreView, event: EventView, line: nat)
    requires
        planned(s, event) is Ok,
        planned(s, event)->Ok_0 is Some,
        reservation(s, line) is Ok,
    ensures
        ({
            let entry = planned(s, event)->Ok_0->0;
            let after = installation(reservation(s, line)->Ok_0, entry);
            let u = outcome(s, event, entry.sequence)->Ok_0->0;
            &&& after is Ok
            &&& after->Ok_0.records == u.records
            &&& after->Ok_0.monitors == u.monitors
            &&& after->Ok_0.sequence == s.sequence + 1
            &&& after->Ok_0.bytes == s.bytes + line
            &&& after->Ok_0.reserved is None
        }),
{
    let entry = planned(s, event)->Ok_0->0;
    let t = reservation(s, line)->Ok_0;
    assert(unavailable(s) is None);
    assert(outcome(t, event, entry.sequence) == outcome(s, event, entry.sequence)) by {
        if let EventView::Monitor { commit } = event {
            assert(commit_base(t, commit) == commit_base(s, commit));
        }
    }
}

/// A whole append: the line is planned, room is reserved for its `line` bytes, it is
/// written, and it is installed. `failure` is what the write failed with, if it did.
pub open spec fn appended(s: StoreView, event: EventView, line: nat, failure: Option<Fault>) -> (
    StoreView,
    Result<(), Fault>,
) {
    match planned(s, event) {
        Err(f) => (s, Err(f)),
        Ok(None) => (s, Ok(())),
        Ok(Some(entry)) => match reservation(s, line) {
            Err(f) => (s, Err(f)),
            Ok(t) => match failure {
                Some(f) => (t, Err(f)),
                None => match installation(t, entry) {
                    Err(f) => (t, Err(f)),
                    Ok(after) => (after, Ok(())),
                },
            },
        },
    }
}

/// An append either does everything or nothing. One that is refused before its write
/// leaves the store as it was, ready for the next. One whose write fails is answered with
/// that failure and leaves incidents, checkpoints, sequence and size as they were, but the
/// store takes no event any more. All others take effect.
pub proof fn appends_are_all_or_nothing(s: StoreView, event: EventView, line: nat, failure: Option<Fault>, next: EventView)
    ensures
        ({
            let (after, r) = appended(s, event, line, failure);
            let plan = planned(s, event);
            &&& plan is Err || (plan->Ok_0 is Some && reservation(s, line) is Err) ==> r is Err && after == s
            &&& plan is Ok && plan->Ok_0 is None ==> r is Ok && after == s
            &&& plan is Ok && plan->Ok_0 is Some && reservation(s, line) is Ok && failure is Some ==> {
                &&& r == Err::<(), Fault>(failure->0)
                &&& after.records == s.records
                &&& after.monitors == s.monitors
                &&& after.sequence == s.sequence
                &&& after.bytes == s.bytes
                &&& planned(after, next) == Err::<Option<EntryView>, Fault>(
                    Fault::Unavailable("previous write failed; reopen after checking storage"@),
                )
            }
            &&& plan is Ok && plan->Ok_0 is Some && reservation(s, line) is Ok && failure is None ==> {
                &&& r is Ok
                &&& after.records == outcome(s, event, (s.sequence + 1) as u64)->Ok_0->0.records
                &&& after.monitors == outcome(s, event, (s.sequence + 1) as u64)->Ok_0->0.monitors
                &&& after.sequence == s.sequence + 1
                &&& after.bytes == s.bytes + line
                &&& after.reserved is None
                &&& after.closed == s.closed
            }
        }),
{
    if planned(s, event) is Ok && planned(s, event)->Ok_0 is Some && reservation(s, line) is Ok {
        written_lines_are_installed(s, event, line);
    }
}

/// Two texts, a rule and a kind name one subject.
pub open spec fn same_subject(r: IncidentView, s: SignalView) -> bool {
    &&& r.monitor_id == s.monitor_id
    &&& r.target_id == s.target_id
    &&& r.rule_id == s.rule_id
    &&& r.kind == s.kind
}

/// A signal of a subject with an unresolved episode continues that episode: it shows what the
/// signal says, was last seen at the commit's time, and has occurred once more exactly if the
/// signal is active. A clear signal resolves it, any other leaves its status. Whose it is, when
/// it began and what was acknowledged stay, and so does every other incident.
pub proof fn signals_continue_the_open_episode(
    d: Draft,
    s: SignalView,
    monitor_id: Seq<char>,
    sequence: u64,
    index: nat,
    id: Seq<char>,
)
    requires
        consistent(d.records, sequence, index),
        d.records.contains_key(id),
        same_subject(d.records[id], s),
        d.records[id].status != IncidentStatus::Resolved,
        signalled(d, s, monitor_id, sequence, index) is Ok,
    ensures
        ({
            let after = signalled(d, s, monitor_id, sequence, index)->Ok_0;
            let was = d.records[id];
            let now = after.records[id];
            &&& s.monitor_id == monitor_id
            &&& after.records == d.records.insert(id, now)
            &&& now.condition == s.condition
            &&& now.summary == s.summary
            &&& now.evidence == s.evidence
            &&& now.last_seen == after.timestamp
            &&& after.timestamp >= d.timestamp && after.timestamp >= was.last_seen
            &&& was.acknowledgement is Some ==> after.timestamp >= was.acknowledgement->0.at_ms
            &&& d.timestamp >= was.last_seen && (was.acknowledgement is Some ==> d.timestamp
                >= was.acknowledgement->0.at_ms) ==> after.timestamp == d.timestamp
            &&& now.occurrences == was.occurrences + (if s.condition == SignalCondition::Active { 1int } else { 0int })
            &&& now.revision == was.revision + 1
            &&& s.condition == SignalCondition::Clear ==> now.status == IncidentStatus::Resolved && now.resolved_at == Some(
                after.timestamp,
            )
            &&& s.condition != SignalCondition::Clear ==> now.status == was.status && now.resolved_at == was.resolved_at
            &&& now.id == id && same_subject(now, s)
            &&& now.first_seen == was.first_seen
            &&& now.acknowledgement == was.acknowledgement
            &&& after.added == d.added
        }),
{
    let key = key_of_signal(s);
    assert(is_open(d.records, key, id));
    assert(is_open(d.records, key, open_id(d.records, key)));
    assert(open_id(d.records, key) == id);
}

/// An active signal of a subject without an unresolved episode begins one: open, unacknowledged,
/// seen once, at the commit's time, showing what the signal says. Every other incident stays.
/// Any other signal of such a subject changes nothing.
pub proof fn active_signals_begin_an_episode(d: Draft, s: SignalView, monitor_id: Seq<char>, sequence: u64, index: nat)
    requires
        consistent(d.records, sequence, index),
        index < 65536,
        forall|id: Seq<char>| #[trigger]
            d.records.contains_key(id) && same_subject(d.records[id], s) ==> d.records[id].status == IncidentStatus::Resolved,
        signalled(d, s, monitor_id, sequence, index) is Ok,
    ensures
        ({
            let after = signalled(d, s, monitor_id, sequence, index)->Ok_0;
            if s.condition == SignalCondition::Active {
                exists|id: Seq<char>| {
                    let now = after.records[id];
                    &&& !(#[trigger] d.records.contains_key(id))
                    &&& after.records == d.records.insert(id, now)
                    &&& now.id == id && same_subject(now, s)
                    &&& now.status == IncidentStatus::Open
                    &&& now.condition == SignalCondition::Active
                    &&& now.summary == s.summary && now.evidence == s.evidence
                    &&& now.first_seen == d.timestamp && now.last_seen == d.timestamp
                    &&& now.occurrences == 1 && now.revision == 1
                    &&& now.resolved_at is None && now.acknowledgement is None
                    &&& after.added == d.added + 1 && after.timestamp == d.timestamp
                }
            } else {
                after.records == d.records && after.added == d.added && after.timestamp == d.timestamp
            }
        }),
{
    let key = key_of_signal(s);
    if has_open(d.records, key) {
        let id = open_id(d.records, key);
        assert(is_open(d.records, key, id));
        assert(d.records.contains_key(id) && same_subject(d.records[id], s));
    }
    if s.condition == SignalCondition::Active {
        let id = incident_id_of(sequence, index);
        next_id_is_new(d.records, sequence, index);
        assert(!d.records.contains_key(id));
    }
}

proof fn other_subjects_are_left(d: Draft, s: SignalView, monitor_id: Seq<char>, sequence: u64, index: nat, key: KeyView)
    requires
        consistent(d.records, sequence, index),
        index < 65536,
        key != key_of_signal(s),
        signalled(d, s, monitor_id, sequence, index) is Ok,
    ensures
        forall|id: Seq<char>| #[trigger]
            is_open(signalled(d, s, monitor_id, sequence, index)->Ok_0.records, key, id) <==> is_open(d.records, key, id),
        forall|id: Seq<char>| #[trigger]
            is_open(d.records, key, id) ==> signalled(d, s, monitor_id, sequence, index)->Ok_0.records[id] == d.records[id],
{
    let mine = key_of_signal(s);
    next_id_is_new(d.records, sequence, index);
    if has_open(d.records, mine) {
        assert(is_open(d.records, mine, open_id(d.records, mine)));
    }
    let after = signalled(d, s, monitor_id, sequence, index)->Ok_0;
    assert forall|id: Seq<char>| #[trigger] is_open(after.records, key, id) <==> is_open(d.records, key, id) by {}
}

/// After a commit each subject is where its last signal put it: after an active or an unknown
/// one its unresolved episode shows that signal, after a clear one it has none.
pub proof fn the_last_signal_of_a_subject_counts(
    base: Draft,
    signals: Seq<SignalView>,
    monitor_id: Seq<char>,
    sequence: u64,
    n: int,
)
    requires
        consistent(base.records, sequence, 0),
        signals.len() <= 65536,
        drafted(base, signals, monitor_id, sequence) is Ok,
        0 <= n < signals.len(),
        forall|j: int| n < j < signals.len() ==> key_of_signal(#[trigger] signals[j]) != key_of_signal(signals[n]),
    ensures
        ({
            let after = drafted(base, signals, monitor_id, sequence)->Ok_0.records;
            let s = signals[n];
            &&& s.condition == SignalCondition::Active ==> exists|id: Seq<char>| #[trigger]
                after.contains_key(id) && same_subject(after[id], s) && after[id].status != IncidentStatus::Resolved
            &&& s.condition == SignalCondition::Clear ==> forall|id: Seq<char>| #[trigger]
                after.contains_key(id) && same_subject(after[id], s) ==> after[id].status == IncidentStatus::Resolved
            &&& forall|id: Seq<char>| #[trigger]
                after.contains_key(id) && same_subject(after[id], s) && after[id].status != IncidentStatus::Resolved
                    ==> after[id].condition == s.condition && after[id].summary == s.summary && after[id].evidence == s.evidence
        }),
    decreases signals.len(),
{
    let front = signals.drop_last();
    let d = drafted(base, front, monitor_id, sequence)->Ok_0;
    let last = signals.last();
    let index = (signals.len() - 1) as nat;
    let after = drafted(base, signals, monitor_id, sequence)->Ok_0;
    let s = signals[n];
    let key = key_of_signal(s);
    commit_stays_consistent(base, front, monitor_id, sequence);
    if n < front.len() {
        assert forall|j: int| n < j < front.len() implies key_of_signal(#[trigger] front[j]) != key_of_signal(front[n]) by {
            assert(front[j] == signals[j]);
        }
        the_last_signal_of_a_subject_counts(base, front, monitor_id, sequence, n);
        assert(key_of_signal(last) != key);
        other_subjects_are_left(d, last, monitor_id, sequence, index, key);
        if s.condition == SignalCondition::Active {
            let id = choose|id: Seq<char>| #[trigger]
                d.records.contains_key(id) && same_subject(d.records[id], s) && d.records[id].status
                    != IncidentStatus::Resolved;
            assert(is_open(d.records, key, id));
            assert(is_open(after.records, key, id));
        }
        assert forall|id: Seq<char>| #[trigger]
            after.records.contains_key(id) && same_subject(after.records[id], s) && after.records[id].status
                != IncidentStatus::Resolved implies d.records.contains_key(id) && d.records[id] == after.records[id] by {
            assert(is_open(after.records, key, id));
            assert(is_open(d.records, key, id));
        }
    } else {
        commit_stays_consistent(base, signals, monitor_id, sequence);
        if has_open(d.records, key) {
            let id = open_id(d.records, key);
            assert(is_open(d.records, key, id));
            signals_continue_the_open_episode(d, last, monitor_id, sequence, index, id);
            assert forall|k: Seq<char>| #[trigger]
                after.records.contains_key(k) && same_subject(after.records[k], s) && after.records[k].status
                    != IncidentStatus::Resolved implies k == id by {
                if k != id {
                    assert(is_open(d.records, key, k));
                }
            }
            assert(after.records.contains_key(id));
        } else {
            assert forall|id: Seq<char>| #[trigger]
                d.records.contains_key(id) && same_subject(d.records[id], s) implies d.records[id].status
                == IncidentStatus::Resolved by {
                if d.records[id].status != IncidentStatus::Resolved {
                    assert(is_open(d.records, key, id));
                }
            }
            active_signals_begin_an_episode(d, last, monitor_id, sequence, index);
            if s.condition == SignalCondition::Active {
                let id = choose|id: Seq<char>| {
                    &&& !(#[trigger] d.records.contains_key(id))
                    &&& after.records == d.records.insert(id, after.records[id])
                    &&& same_subject(after.records[id], s)
                    &&& after.records[id].status == IncidentStatus::Open
                    &&& after.records[id].condition == SignalCondition::Active
                    &&& after.records[id].summary == s.summary && after.records[id].evidence == s.evidence
                };
                assert(after.records.contains_key(id));
            }
        }
    }
}

/// A commit writes its monitor's state and the incidents of its signals, starting from the
/// incidents that the store holds, at its own time or the monitor's last one if that is later.
pub proof fn commits_work_through_their_signals(s: StoreView, commit: CommitView, sequence: u64)
    requires
        s.monitors.dom().finite(),
        committed(s, commit, sequence) is Ok,
        committed(s, commit, sequence)->Ok_0 is Some,
    ensures
        ({
            let u = committed(s, commit, sequence)->Ok_0->0;
            let base = commit_base(s, commit);
            &&& base.records == s.records && base.added == 0 && base.changed.len() == 0
            &&& base.timestamp >= commit.now_ms
            &&& s.monitors.contains_key(commit.monitor_id) ==> base.timestamp
                >= s.monitors[commit.monitor_id].updated_at_ms && (base.timestamp == commit.now_ms || base.timestamp
                == s.monitors[commit.monitor_id].updated_at_ms)
            &&& !s.monitors.contains_key(commit.monitor_id) ==> base.timestamp == commit.now_ms
            &&& drafted(base, commit.signals, commit.monitor_id, sequence) is Ok
            &&& u.records == drafted(base, commit.signals, commit.monitor_id, sequence)->Ok_0.records
            &&& u.monitors.contains_key(commit.monitor_id) && u.monitors[commit.monitor_id].commit == commit
            &&& u.monitors[commit.monitor_id].updated_at_ms == drafted(
                base,
                commit.signals,
                commit.monitor_id,
                sequence,
            )->Ok_0.timestamp
            &&& forall|m: Seq<char>|
                m != commit.monitor_id && s.monitors.contains_key(m) ==> #[trigger] u.monitors[m] == s.monitors[m]
            &&& u.monitors.dom().len() <= s.max_monitors || s.monitors.contains_key(commit.monitor_id)
        }),
{
    if !s.monitors.contains_key(commit.monitor_id) {
        assert(s.monitors.dom().len() < s.max_monitors);
        let u = committed(s, commit, sequence)->Ok_0->0;
        assert(u.monitors.dom() =~= s.monitors.dom().insert(commit.monitor_id));
        assert(u.monitors.dom().len() == s.monitors.dom().len() + 1);
    }
}

/// Only an open incident is acknowledged, at the revision that was looked at, with a named
/// actor; what was said is kept, and its time is never before the incident was last seen.
pub proof fn acknowledgements_are_kept(
    s: StoreView,
    id: Seq<char>,
    expected_revision: u64,
    actor: Seq<char>,
    note: Seq<char>,
    now_ms: u64,
)
    requires
        sound(s.records, s.sequence),
    ensures
        match acknowledgement(s, id, expected_revision, actor, note, now_ms) {
            Ok(Some(u)) => {
                let was = s.records[id];
                let now = u.records[id];
                &&& s.records.contains_key(id)
                &&& was.status == IncidentStatus::Open
                &&& was.revision == expected_revision
                &&& now.acknowledgement is Some
                &&& now.acknowledgement->0.actor == actor
                &&& now.acknowledgement->0.note == note
                &&& now.acknowledgement->0.at_ms == (if now_ms >= was.last_seen { now_ms } else { was.last_seen })
                &&& now.id == was.id && same_key(was, now)
                &&& now.resolved_at == was.resolved_at
            },
            Ok(None) => false,
            Err(f) => s.records.contains_key(id) && s.records[id].status == IncidentStatus::Open
                && s.records[id].revision == expected_revision && expected_revision < u64::MAX ==> f is Invalid,
        },
{
}

/// Two records of one subject.
pub open spec fn same_key(a: IncidentView, b: IncidentView) -> bool {
    &&& a.monitor_id == b.monitor_id
    &&& a.target_id == b.target_id
    &&& a.rule_id == b.rule_id
    &&& a.kind == b.kind
}

/// The latest commit of a monitor sent again is answered without a write; every other commit
/// out of turn conflicts.
pub proof fn repeated_commits_write_nothing(s: StoreView, commit: CommitView, sequence: u64)
    requires
        s.monitors.contains_key(commit.monitor_id),
    ensures
        match committed(s, commit, sequence) {
            Ok(None) => {
                let last = s.monitors[commit.monitor_id].commit;
                &&& last.sequence == commit.sequence
                &&& last.now_ms == commit.now_ms
                &&& last.signals.len() == commit.signals.len()
                &&& alike(last.checkpoint, commit.checkpoint)
                &&& forall|i: int|
                    0 <= i < commit.signals.len() ==> {
                        let a = #[trigger] last.signals[i];
                        let b = commit.signals[i];
                        &&& a.monitor_id == b.monitor_id && a.target_id == b.target_id && a.rule_id == b.rule_id
                        &&& a.kind == b.kind && a.condition == b.condition && a.summary == b.summary
                        &&& alike(a.evidence, b.evidence)
                    }
            },
            Ok(Some(_)) => commit.sequence == s.monitors[commit.monitor_id].commit.sequence + 1,
            Err(_) => true,
        },
{
}

} // verus!
