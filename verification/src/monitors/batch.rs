//! Checks on one reply of an observation source.
use super::config::reports;
use super::{
    copied_opt, samples_of, BatchCoverage, BatchView, Fault, MonitorError, ObservationBatch, ObservationSample, SampleView,
    MAX_BATCH, MAX_SAMPLES,
};
use crate::faults::{earliest, earliest_sticks, either};
use crate::json::values::{
    empty_object, number_tree, number_value, object, opt_json, text_or_null, text_value, texts_json, texts_tree, with,
};
use crate::json::{alike, depth, encoded_size, group_json, tree, trees, with_member, Json, Tree};
use crate::protocol::{is_id, valid_id};
use crate::text::{byte_len, copied, copied_list, listed, opt, same, texts, utf8_len};
use vstd::prelude::*;

verus! {

broadcast use group_json;

/// How far a source has been read, durable between runs.
pub struct SourceCheckpoint {
    pub binding: String,
    pub generation: Option<String>,
    pub cursor: Option<String>,
    pub last_sequence: Option<u64>,
    pub recent_ids: Vec<String>,
    pub retired_generations: Vec<String>,
}

pub struct CheckpointView {
    pub binding: Seq<char>,
    pub generation: Option<Seq<char>>,
    pub cursor: Option<Seq<char>>,
    pub last_sequence: Option<u64>,
    pub recent_ids: Seq<Seq<char>>,
    pub retired_generations: Seq<Seq<char>>,
}

impl View for SourceCheckpoint {
    type V = CheckpointView;

    open spec fn view(&self) -> CheckpointView {
        CheckpointView {
            binding: self.binding@,
            generation: opt(self.generation),
            cursor: opt(self.cursor),
            last_sequence: self.last_sequence,
            recent_ids: texts(self.recent_ids@),
            retired_generations: texts(self.retired_generations@),
        }
    }
}

/// A checkpoint as a JSON value.
pub open spec fn checkpoint_tree(c: CheckpointView) -> Tree {
    let t = with_member(empty_object(), "binding"@, Tree::Text(c.binding));
    let t = with_member(t, "generation"@, text_or_null(c.generation));
    let t = with_member(t, "cursor"@, text_or_null(c.cursor));
    let t = with_member(t, "last_sequence"@, number_tree(c.last_sequence));
    let t = with_member(t, "recent_ids"@, texts_tree(c.recent_ids));
    with_member(t, "retired_generations"@, texts_tree(c.retired_generations))
}

pub open spec fn coverage_name(coverage: BatchCoverage) -> Seq<char> {
    match coverage {
        BatchCoverage::Complete => "complete"@,
        BatchCoverage::Partial => "partial"@,
    }
}

pub open spec fn sample_tree(s: SampleView) -> Tree {
    let t = with_member(empty_object(), "id"@, Tree::Text(s.id));
    let t = with_member(t, "sequence"@, Tree::Unsigned(s.sequence));
    let t = with_member(t, "age_ms"@, Tree::Unsigned(s.age_ms));
    let t = with_member(t, "value"@, s.value);
    with_member(t, "evidence"@, s.evidence)
}

/// A batch as a JSON value.
pub open spec fn batch_tree(b: BatchView) -> Tree {
    let t = with_member(empty_object(), "schema_version"@, Tree::Unsigned(b.schema_version as u64));
    let t = with_member(t, "target_id"@, Tree::Text(b.target_id));
    let t = with_member(t, "source_id"@, Tree::Text(b.source_id));
    let t = with_member(t, "generation"@, Tree::Text(b.generation));
    let t = with_member(t, "cursor"@, text_or_null(b.cursor));
    let t = with_member(t, "next_cursor"@, Tree::Text(b.next_cursor));
    let t = with_member(t, "coverage"@, Tree::Text(coverage_name(b.coverage)));
    let t = with_member(t, "has_more"@, Tree::Bool(b.has_more));
    let t = with_member(t, "error"@, text_or_null(b.error));
    with_member(t, "samples"@, Tree::Array(b.samples.map_values(|s: SampleView| sample_tree(s))))
}

pub open spec fn refused(message: Seq<char>) -> Fault {
    Fault::Observation(message)
}

pub open spec fn deep(samples: Seq<SampleView>) -> bool {
    exists|i: int| 0 <= i < samples.len() && (depth((#[trigger] samples[i]).value) > 24 || depth(samples[i].evidence) > 24)
}

/// The batch answers the request that the checkpoint stands for, within limits.
pub open spec fn answers(target_id: Seq<char>, source_id: Seq<char>, c: CheckpointView, b: BatchView) -> bool {
    &&& encoded_size(batch_tree(b)) <= MAX_BATCH
    &&& b.samples.len() <= MAX_SAMPLES
    &&& b.schema_version == 1
    &&& b.target_id == target_id
    &&& b.source_id == source_id
    &&& b.cursor == c.cursor
    &&& is_id(b.generation)
    &&& 0 < b.next_cursor.len()
    &&& byte_len(b.next_cursor) <= 4096
    &&& b.error is Some ==> 0 < b.error->0.len() && byte_len(b.error->0) <= 2048
}

pub open spec fn same_content(a: SampleView, b: SampleView) -> bool {
    a.sequence == b.sequence && alike(a.value, b.value) && alike(a.evidence, b.evidence)
}

/// The sample last seen under the same id says something else.
pub open spec fn contradicts(samples: Seq<SampleView>, i: int) -> bool {
    exists|j: int|
        0 <= j < i && (#[trigger] samples[j]).id == samples[i].id && (forall|k: int|
            j < k < i ==> (#[trigger] samples[k]).id != samples[i].id) && !same_content(samples[j], samples[i])
}

/// A known id comes back under a newer sequence number.
pub open spec fn renewed(c: CheckpointView, generation: Seq<char>, s: SampleView) -> bool {
    &&& c.generation == Some(generation)
    &&& c.last_sequence is Some && s.sequence > c.last_sequence->0
    &&& c.recent_ids.contains(s.id)
}

pub open spec fn sample_valid(s: SampleView) -> bool {
    &&& is_id(s.id)
    &&& 0 < s.sequence <= 9007199254740992
    &&& s.evidence is Object
    &&& s.age_ms <= 9007199254740992
    &&& encoded_size(s.evidence) <= 4096
    &&& encoded_size(s.value) <= 4096
}

pub open spec fn sample_fault(c: CheckpointView, b: BatchView, i: int) -> Option<Fault> {
    if contradicts(b.samples, i) {
        Some(refused("sample identity is reused with contradictory content"@))
    } else if renewed(c, b.generation, b.samples[i]) {
        Some(refused("sample identity is reused for a newer sequence"@))
    } else if !sample_valid(b.samples[i]) {
        Some(refused("sample identity, sequence or evidence/value limit invalid"@))
    } else {
        None
    }
}

/// Two neighbours in order, or repeats of one another.
pub open spec fn in_order(a: SampleView, b: SampleView) -> bool {
    a.sequence < b.sequence || (a.sequence == b.sequence && a.id == b.id && alike(b.value, a.value) && alike(
        b.evidence,
        a.evidence,
    ))
}

pub open spec fn ordered(samples: Seq<SampleView>) -> bool {
    forall|i: int, j: int|
        0 <= i && i + 1 == j && j < samples.len() ==> in_order(#[trigger] samples[i], #[trigger] samples[j])
}

/// Encoded bytes of values and evidence of the first `n` samples.
pub open spec fn evidence_bytes(samples: Seq<SampleView>, n: nat) -> nat
    decreases n,
{
    if n == 0 {
        0
    } else {
        evidence_bytes(samples, (n - 1) as nat) + encoded_size(samples[n - 1].value) + encoded_size(samples[n - 1].evidence)
    }
}

/// The first rule that a batch breaks.
pub open spec fn batch_fault(target_id: Seq<char>, source_id: Seq<char>, c: CheckpointView, b: BatchView) -> Option<Fault> {
    if deep(b.samples) {
        Some(refused("sample value/evidence nesting exceeds 24 levels"@))
    } else if !answers(target_id, source_id, c, b) {
        Some(refused("batch identity, cursor, generation or limits invalid"@))
    } else {
        either(
            earliest(b.samples.len(), |i: int| sample_fault(c, b, i)),
            if !ordered(b.samples) {
                Some(refused("batch samples are out of order or contradict a sequence identity"@))
            } else if evidence_bytes(b.samples, b.samples.len()) > 131072 {
                Some(refused("batch evidence exceeds 128 KiB"@))
            } else {
                None
            },
        )
    }
}

fn refuse(message: &str) -> (e: MonitorError)
    ensures
        e@ == refused(message@),
{
    MonitorError::Observation(copied(message))
}

/// Whether two optional texts are the same.
pub fn same_opt(a: &Option<String>, b: &Option<String>) -> (r: bool)
    ensures
        r == (opt(*a) == opt(*b)),
{
    match (a, b) {
        (Some(a), Some(b)) => same(a, b),
        (None, None) => true,
        _ => false,
    }
}

pub fn same_texts(a: &Vec<String>, b: &Vec<String>) -> (r: bool)
    ensures
        r == (texts(a@) == texts(b@)),
{
    if a.len() != b.len() {
        assert(texts(a@).len() != texts(b@).len());
        return false;
    }
    let mut i: usize = 0;
    while i < a.len()
        invariant
            i <= a.len(),
            a.len() == b.len(),
            forall|j: int| 0 <= j < i ==> (#[trigger] a@[j])@ == b@[j]@,
        decreases a.len() - i,
    {
        if !same(&a[i], &b[i]) {
            assert(texts(a@)[i as int] != texts(b@)[i as int]);
            return false;
        }
        i = i + 1;
    }
    assert(texts(a@) =~= texts(b@));
    true
}

impl SourceCheckpoint {
    pub fn to_json(&self) -> (r: Json)
        ensures
            r@ == checkpoint_tree(self@),
    {
        let t = with(object(), "binding", text_value(&self.binding));
        let t = with(t, "generation", opt_json(&self.generation));
        let t = with(t, "cursor", opt_json(&self.cursor));
        let t = with(t, "last_sequence", number_value(self.last_sequence));
        let t = with(t, "recent_ids", texts_json(&self.recent_ids));
        with(t, "retired_generations", texts_json(&self.retired_generations))
    }

    pub fn equals(&self, other: &SourceCheckpoint) -> (r: bool)
        ensures
            r == (self@ == other@),
    {
        same(&self.binding, &other.binding) && same_opt(&self.generation, &other.generation) && same_opt(
            &self.cursor,
            &other.cursor,
        ) && (match (self.last_sequence, other.last_sequence) {
            (Some(a), Some(b)) => a == b,
            (None, None) => true,
            _ => false,
        }) && same_texts(&self.recent_ids, &other.recent_ids) && same_texts(
            &self.retired_generations,
            &other.retired_generations,
        )
    }
}

impl Clone for SourceCheckpoint {
    fn clone(&self) -> (r: Self)
        ensures
            r@ == self@,
    {
        SourceCheckpoint {
            binding: self.binding.clone(),
            generation: copied_opt(&self.generation),
            cursor: copied_opt(&self.cursor),
            last_sequence: self.last_sequence,
            recent_ids: copied_list(&self.recent_ids),
            retired_generations: copied_list(&self.retired_generations),
        }
    }
}

impl ObservationSample {
    pub fn to_json(&self) -> (r: Json)
        ensures
            r@ == sample_tree(self@),
    {
        let t = with(object(), "id", text_value(&self.id));
        let t = with(t, "sequence", Json::Unsigned(self.sequence));
        let t = with(t, "age_ms", Json::Unsigned(self.age_ms));
        let t = with(t, "value", self.value.copy());
        with(t, "evidence", self.evidence.copy())
    }

    fn valid(&self) -> (r: bool)
        ensures
            r == sample_valid(self@),
    {
        let object = match &self.evidence {
            Json::Object(_) => true,
            _ => false,
        };
        valid_id(&self.id) && self.sequence != 0 && object && self.sequence <= 9007199254740992 && self.age_ms
            <= 9007199254740992 && self.evidence.size() <= 4096 && self.value.size() <= 4096
    }
}

impl ObservationBatch {
    pub fn to_json(&self) -> (r: Json)
        ensures
            r@ == batch_tree(self@),
    {
        let mut list: Vec<Json> = Vec::new();
        let mut i: usize = 0;
        while i < self.samples.len()
            invariant
                i <= self.samples.len(),
                list.len() == i,
                forall|j: int| 0 <= j < i ==> tree(#[trigger] list@[j]) == sample_tree(self.samples@[j]@),
            decreases self.samples.len() - i,
        {
            list.push(self.samples[i].to_json());
            i = i + 1;
        }
        assert(trees(list@) =~= self@.samples.map_values(|s: SampleView| sample_tree(s)));
        let coverage = match self.coverage {
            BatchCoverage::Complete => "complete",
            BatchCoverage::Partial => "partial",
        };
        let t = with(object(), "schema_version", Json::Unsigned(self.schema_version as u64));
        let t = with(t, "target_id", text_value(&self.target_id));
        let t = with(t, "source_id", text_value(&self.source_id));
        let t = with(t, "generation", text_value(&self.generation));
        let t = with(t, "cursor", opt_json(&self.cursor));
        let t = with(t, "next_cursor", text_value(&self.next_cursor));
        let t = with(t, "coverage", text_value(coverage));
        let t = with(t, "has_more", Json::Bool(self.has_more));
        let t = with(t, "error", opt_json(&self.error));
        with(t, "samples", Json::Array(list))
    }

    fn too_deep(&self) -> (r: bool)
        ensures
            r == deep(self@.samples),
    {
        let ghost all = self@.samples;
        let mut i: usize = 0;
        while i < self.samples.len()
            invariant
                i <= self.samples.len(),
                all == samples_of(self.samples@),
                forall|j: int|
                    0 <= j < i ==> !(depth((#[trigger] all[j]).value) > 24 || depth(all[j].evidence) > 24),
            decreases self.samples.len() - i,
        {
            assert(all[i as int] == self.samples@[i as int]@);
            if !self.samples[i].value.within_depth(24) || !self.samples[i].evidence.within_depth(24) {
                return true;
            }
            i = i + 1;
        }
        false
    }

    fn answering(&self, target_id: &str, source_id: &str, c: &SourceCheckpoint) -> (r: bool)
        ensures
            r == answers(target_id@, source_id@, c@, self@),
    {
        let error = match &self.error {
            Some(error) => !error.as_str().is_empty() && utf8_len(error) <= 2048,
            None => true,
        };
        self.to_json().size() <= MAX_BATCH && self.samples.len() <= MAX_SAMPLES && self.schema_version == 1 && same(
            &self.target_id,
            target_id,
        ) && same(&self.source_id, source_id) && same_opt(&self.cursor, &c.cursor) && valid_id(&self.generation)
            && !self.next_cursor.as_str().is_empty() && utf8_len(&self.next_cursor) <= 4096 && error
    }

    fn contradictory(&self, i: usize) -> (r: bool)
        requires
            i < self.samples.len(),
        ensures
            r == contradicts(self@.samples, i as int),
    {
        let ghost all = self@.samples;
        let s = &self.samples[i];
        let mut j: usize = i;
        while j > 0
            invariant
                j <= i < self.samples.len(),
                all == samples_of(self.samples@),
                s@ == all[i as int],
                forall|k: int| j <= k < i ==> (#[trigger] all[k]).id != all[i as int].id,
            decreases j,
        {
            j = j - 1;
            let other = &self.samples[j];
            assert(all[j as int] == other@);
            if same(&other.id, &s.id) {
                let agree = other.sequence == s.sequence && other.value.equals(&s.value) && other.evidence.equals(&s.evidence);
                assert(agree == same_content(all[j as int], all[i as int]));
                proof {
                    if agree && contradicts(all, i as int) {
                        let m = choose|m: int|
                            0 <= m < i && (#[trigger] all[m]).id == all[i as int].id && (forall|k: int|
                                m < k < i ==> (#[trigger] all[k]).id != all[i as int].id) && !same_content(
                                all[m],
                                all[i as int],
                            );
                        assert(m != j);
                        assert(all[j as int].id == all[i as int].id);
                        assert(all[m].id == all[i as int].id);
                        assert(false);
                    }
                }
                return !agree;
            }
        }
        false
    }

    fn check_sample(&self, c: &SourceCheckpoint, i: usize) -> (r: Result<(), MonitorError>)
        requires
            i < self.samples.len(),
        ensures
            reports(r, sample_fault(c@, self@, i as int)),
    {
        let s = &self.samples[i];
        assert(self@.samples[i as int] == s@);
        if self.contradictory(i) {
            return Err(refuse("sample identity is reused with contradictory content"));
        }
        let current = match &c.generation {
            Some(generation) => same(generation, &self.generation),
            None => false,
        };
        let newer = match c.last_sequence {
            Some(last) => s.sequence > last,
            None => false,
        };
        if current && newer && listed(&c.recent_ids, &s.id) {
            return Err(refuse("sample identity is reused for a newer sequence"));
        }
        if !s.valid() {
            return Err(refuse("sample identity, sequence or evidence/value limit invalid"));
        }
        Ok(())
    }

    fn sorted(&self) -> (r: bool)
        ensures
            r == ordered(self@.samples),
    {
        let ghost all = self@.samples;
        let mut i: usize = 1;
        while i < self.samples.len()
            invariant
                1 <= i,
                i <= self.samples.len() || self.samples.len() == 0,
                all == samples_of(self.samples@),
                forall|k: int, m: int|
                    0 <= k && k + 1 == m && m < i && m < all.len() ==> in_order(#[trigger] all[k], #[trigger] all[m]),
            decreases self.samples.len() - i,
        {
            let a = &self.samples[i - 1];
            let b = &self.samples[i];
            assert(all[i - 1] == a@ && all[i as int] == b@);
            if b.sequence < a.sequence || (b.sequence == a.sequence && (!same(&b.id, &a.id) || !b.value.equals(&a.value)
                || !b.evidence.equals(&a.evidence))) {
                assert(!in_order(all[i - 1], all[i as int]));
                return false;
            }
            i = i + 1;
        }
        true
    }

    /// Checks this batch against the monitor's target, source and checkpoint.
    pub fn check(&self, target_id: &str, source_id: &str, c: &SourceCheckpoint) -> (r: Result<(), MonitorError>)
        ensures
            reports(r, batch_fault(target_id@, source_id@, c@, self@)),
    {
        if self.too_deep() {
            return Err(refuse("sample value/evidence nesting exceeds 24 levels"));
        }
        if !self.answering(target_id, source_id, c) {
            return Err(refuse("batch identity, cursor, generation or limits invalid"));
        }
        let ghost f = |i: int| sample_fault(c@, self@, i);
        let ghost all = self@.samples;
        let mut total: usize = 0;
        let mut i: usize = 0;
        while i < self.samples.len()
            invariant
                i <= self.samples.len() <= MAX_SAMPLES,
                all == samples_of(self.samples@),
                all == self@.samples,
                f == (|k: int| sample_fault(c@, self@, k)),
                earliest(i as nat, f) is None,
                !deep(all),
                answers(target_id@, source_id@, c@, self@),
                total == evidence_bytes(all, i as nat),
                total <= i * 8192,
            decreases self.samples.len() - i,
        {
            let checked = self.check_sample(c, i);
            assert(f(i as int) == sample_fault(c@, self@, i as int));
            if let Err(e) = checked {
                proof {
                    assert(earliest((i + 1) as nat, f) == f(i as int));
                    earliest_sticks((i + 1) as nat, self.samples.len() as nat, f);
                }
                return Err(e);
            }
            assert(all[i as int] == self.samples@[i as int]@);
            total = total + self.samples[i].value.size() + self.samples[i].evidence.size();
            i = i + 1;
        }
        if !self.sorted() {
            return Err(refuse("batch samples are out of order or contradict a sequence identity"));
        }
        if total > 131072 {
            return Err(refuse("batch evidence exceeds 128 KiB"));
        }
        Ok(())
    }
}

} // verus!
