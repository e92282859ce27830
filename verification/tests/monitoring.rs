use recuvora::json::{Json, Real};
use recuvora::monitors::batch::SourceCheckpoint;
use recuvora::monitors::discovery::{
    after_round, observation_epoch, observation_pending, DiscoveryBatch, DiscoveryState, DiscoveryTarget, Round,
};
use recuvora::monitors::engine::{fatal, MonitorEngine};
use recuvora::monitors::schedule::{tick_ms, Due, Runner};
use recuvora::monitors::state::MonitorState;
use recuvora::monitors::{
    BatchCoverage, Coverage, Freshness, MonitorDefinition, MonitorDiscovery, MonitorError, MonitorRule, MonitorsConfig,
    ObservationBatch, ObservationSample, RuleOperator, TargetHealth,
};
use recuvora::recovery::incidents::store::IncidentStore;
use recuvora::recovery::incidents::{
    IncidentError, IncidentKind, IncidentSignal, IncidentStatus, IncidentStoreConfig, MonitorCommit, SignalCondition,
};

const MS: u64 = 1000000;

fn convert(value: &serde_json::Value) -> Json {
    match value {
        serde_json::Value::Null => Json::Null,
        serde_json::Value::Bool(b) => Json::Bool(*b),
        serde_json::Value::Number(n) => {
            if let Some(u) = n.as_u64() {
                Json::Unsigned(u)
            } else if let Some(i) = n.as_i64() {
                Json::Negative(i)
            } else {
                let f = n.as_f64().unwrap();
                let bits = f.to_bits();
                let raw = ((bits >> 52) & 0x7ff) as i16;
                let fraction = (bits & 0xf_ffff_ffff_ffff) as i64;
                let (m, e) = if raw == 0 { (fraction, -1074) } else { (fraction | (1 << 52), raw - 1075) };
                Json::Real(Real { text: n.to_string(), mantissa: if f < 0.0 { -m } else { m }, exponent: e })
            }
        }
        serde_json::Value::String(s) => Json::Text(s.clone()),
        serde_json::Value::Array(list) => Json::Array(list.iter().map(convert).collect()),
        serde_json::Value::Object(map) => Json::Object(map.iter().map(|(k, v)| (k.clone(), convert(v))).collect()),
    }
}

fn json(text: &str) -> Json {
    convert(&serde_json::from_str(text).unwrap())
}

fn rule(operator: RuleOperator, value: &str) -> MonitorRule {
    MonitorRule { pointer: "/up".into(), operator, value: json(value), failure_samples: 2, success_samples: 2 }
}

fn definition(id: &str) -> MonitorDefinition {
    MonitorDefinition {
        id: id.into(),
        target_id: "target".into(),
        source_id: "source".into(),
        view_role: None,
        extension_id: "plugin".into(),
        contract: "demo.health".into(),
        version: 1,
        method: "poll".into(),
        params: json("{\"host\":\"a\"}"),
        interval_ms: 1000,
        timeout_ms: 500,
        stale_after_ms: 5000,
        startup_grace_ms: 3000,
        rule: rule(RuleOperator::Eq, "true"),
    }
}

fn state() -> MonitorState {
    MonitorState::restore(definition("m"), None, 0).ok().unwrap()
}

fn sample(id: &str, sequence: u64, up: &str) -> ObservationSample {
    ObservationSample {
        id: id.into(),
        sequence,
        age_ms: 0,
        value: json(&format!("{{\"up\":{up}}}")),
        evidence: json("{}"),
    }
}

fn batch(cursor: Option<&str>, next: &str, samples: Vec<ObservationSample>) -> ObservationBatch {
    ObservationBatch {
        schema_version: 1,
        target_id: "target".into(),
        source_id: "source".into(),
        generation: "g1".into(),
        cursor: cursor.map(String::from),
        next_cursor: next.into(),
        coverage: BatchCoverage::Complete,
        has_more: false,
        error: None,
        samples,
    }
}

fn kinds(signals: &[IncidentSignal]) -> Vec<(IncidentKind, SignalCondition)> {
    signals.iter().map(|s| (s.kind, s.condition)).collect()
}

#[test]
fn rules_judge_samples() {
    let cases = [
        (RuleOperator::Eq, "true", "{\"up\":true}", true),
        (RuleOperator::Ne, "true", "{\"up\":true}", false),
        (RuleOperator::Gt, "1", "{\"up\":1.5}", true),
        (RuleOperator::Ge, "2", "{\"up\":2}", true),
        (RuleOperator::Lt, "2", "{\"up\":2}", false),
        (RuleOperator::Le, "-1", "{\"up\":-1}", true),
        (RuleOperator::Eq, "\"ok\"", "{\"up\":\"ok\"}", true),
    ];
    for (operator, value, observed, healthy) in cases {
        assert_eq!(rule(operator, value).evaluate(&json(observed)).unwrap(), healthy);
    }
    let r = rule(RuleOperator::Eq, "true");
    assert_eq!(r.evaluate(&json("{}")).unwrap_err().message(), "invalid observation: rule field is missing");
    assert_eq!(
        r.evaluate(&json("{\"up\":1}")).unwrap_err().message(),
        "invalid observation: rule field has an invalid type or number range"
    );
    assert!(rule(RuleOperator::Eq, "true").validate().is_ok());
    assert!(rule(RuleOperator::Gt, "true").validate().is_err());
    assert!(rule(RuleOperator::Eq, "null").validate().is_err());
    let mut bad = rule(RuleOperator::Eq, "true");
    bad.pointer = "/a~2".into();
    assert!(bad.validate().is_err());
}

#[test]
fn configurations_are_checked() {
    let one = MonitorsConfig { schema_version: 1, monitors: vec![definition("m")], discoveries: vec![] };
    assert!(one.validate().is_ok());
    let twice = MonitorsConfig { schema_version: 1, monitors: vec![definition("m"), definition("m")], discoveries: vec![] };
    assert!(twice.validate().is_err());
    let version = MonitorsConfig { schema_version: 2, monitors: vec![], discoveries: vec![] };
    assert!(version.validate().is_err());
    let mut reserved = definition("m");
    reserved.contract = "recuvora.x".into();
    assert!(MonitorsConfig { schema_version: 1, monitors: vec![reserved], discoveries: vec![] }.validate().is_err());
}

#[test]
fn verdicts_need_enough_samples() {
    let mut s = state();
    let signals = s.accept(batch(None, "c1", vec![sample("1", 1, "true")]), 0, 10 * MS, 1000).unwrap();
    assert_eq!(s.view.health, TargetHealth::Unknown);
    assert_eq!(s.view.freshness, Freshness::Fresh);
    assert_eq!(kinds(&signals), vec![(IncidentKind::Coverage, SignalCondition::Clear)]);
    let signals = s.accept(batch(Some("c1"), "c2", vec![sample("2", 2, "true")]), 0, 20 * MS, 1001).unwrap();
    assert_eq!(s.view.health, TargetHealth::Healthy);
    assert_eq!(
        kinds(&signals),
        vec![(IncidentKind::Target, SignalCondition::Clear), (IncidentKind::Coverage, SignalCondition::Clear)]
    );
    s.accept(batch(Some("c2"), "c3", vec![sample("3", 3, "false")]), 0, 30 * MS, 1002).unwrap();
    let signals = s.accept(batch(Some("c3"), "c4", vec![sample("4", 4, "false")]), 0, 40 * MS, 1003).unwrap();
    assert_eq!(s.view.health, TargetHealth::Unhealthy);
    assert_eq!(
        kinds(&signals),
        vec![(IncidentKind::Target, SignalCondition::Active), (IncidentKind::Coverage, SignalCondition::Clear)]
    );
    assert_eq!(s.view.consecutive_failures, 2);
    assert_eq!(s.checkpoint.last_sequence, Some(4));
    assert_eq!(s.checkpoint.cursor.as_deref(), Some("c4"));
}

#[test]
fn lost_coverage_leaves_no_verdict_and_is_said_once() {
    let mut s = state();
    s.accept(batch(None, "c1", vec![sample("1", 1, "true"), sample("2", 2, "true")]), 0, MS, 1).unwrap();
    assert_eq!(s.view.health, TargetHealth::Healthy);
    let first = s.coverage_failure("gone", Coverage::Unavailable);
    assert_eq!(s.view.health, TargetHealth::Unknown);
    assert_eq!(s.view.consecutive_successes, 0);
    assert!(!first.is_empty());
    assert!(s.coverage_failure("gone", Coverage::Partial).is_empty());
}

#[test]
fn time_removes_verdicts_and_signals_once() {
    let mut s = state();
    s.accept(batch(None, "c1", vec![sample("1", 1, "true"), sample("2", 2, "true")]), 0, MS, 1).unwrap();
    assert!(s.tick(2 * MS).is_empty());
    assert_eq!(s.view.health, TargetHealth::Healthy);
    let signals = s.tick(MS + 5000 * MS);
    assert!(!signals.is_empty());
    assert_eq!(s.view.health, TargetHealth::Unknown);
    assert_eq!(s.view.freshness, Freshness::Stale);
    assert!(s.tick(MS + 5000 * MS).is_empty());
    let mut fresh = state();
    assert!(fresh.tick(2999 * MS).is_empty());
    assert!(!fresh.tick(3000 * MS).is_empty());
}

#[test]
fn partial_batches_clear_nothing() {
    let mut s = state();
    let mut b = batch(None, "c1", vec![sample("1", 1, "true"), sample("2", 2, "true")]);
    b.coverage = BatchCoverage::Partial;
    b.error = Some("source lag".into());
    let signals = s.accept(b, 0, MS, 1).unwrap();
    assert_ne!(s.view.health, TargetHealth::Healthy);
    assert!(signals.iter().all(|x| x.condition != SignalCondition::Clear));
    assert_eq!(s.view.coverage, Coverage::Partial);
    assert_eq!(s.view.consecutive_successes, 0);
}

#[test]
fn repeated_samples_count_once_and_sequences_never_fall() {
    let mut s = state();
    s.accept(batch(None, "c1", vec![sample("1", 1, "true")]), 0, MS, 1).unwrap();
    let signals = s.accept(batch(Some("c1"), "c2", vec![sample("1", 1, "true")]), 0, 2 * MS, 2).unwrap();
    assert!(signals.is_empty());
    assert_eq!(s.view.consecutive_successes, 1);
    assert_eq!(s.view.consecutive_failures, 0);
    assert_eq!(s.view.last_sample_id.as_deref(), Some("1"));
    assert_eq!(s.view.cursor.as_deref(), Some("c2"));
    assert_eq!(s.checkpoint.cursor.as_deref(), Some("c2"));
    assert_eq!(s.checkpoint.last_sequence, Some(1));
    let before = s.checkpoint.to_json().render();
    assert!(s.accept(batch(Some("c1"), "c9", vec![sample("9", 9, "true")]), 0, 3 * MS, 3).is_err());
    assert_eq!(s.checkpoint.to_json().render(), before);
}

#[test]
fn generations_do_not_come_back() {
    let mut s = state();
    s.accept(batch(None, "c1", vec![sample("1", 5, "true")]), 0, MS, 1).unwrap();
    let mut b = batch(Some("c1"), "c2", vec![sample("2", 1, "true")]);
    b.generation = "g2".into();
    s.accept(b, 0, 2 * MS, 2).unwrap();
    assert_eq!(s.checkpoint.generation.as_deref(), Some("g2"));
    assert!(s.checkpoint.retired_generations.contains(&"g1".to_string()));
    let refused = s.accept(batch(Some("c2"), "c3", vec![sample("3", 9, "true")]), 0, 3 * MS, 3);
    assert!(refused.is_err());
}

#[test]
fn memory_stays_bounded() {
    let mut s = state();
    let mut cursor: Option<String> = None;
    for i in 0..70u64 {
        let next = format!("c{i}");
        let samples = (0..4).map(|k| sample(&format!("s{}", i * 4 + k), i * 4 + k + 1, "true")).collect();
        s.accept(batch(cursor.as_deref(), &next, samples), 0, (i + 1) * MS, i + 1).unwrap();
        cursor = Some(next);
    }
    assert!(s.checkpoint.recent_ids.len() <= 128);
    assert_eq!(s.view.consecutive_successes, 2);
}

#[test]
fn late_replies_do_not_count() {
    let mut runner = Runner::new(state(), None, 0);
    assert_eq!(tick_ms(&definition("m")), 250);
    assert!(matches!(runner.on_due(true, false, None, 0), Due::Call(_)));
    assert!(matches!(Runner::new(state(), Some(0), 0).on_due(true, true, None, 0), Due::Wait));
    runner.on_deadline();
    let before = runner.state.checkpoint.to_json().render();
    runner.on_reply(Ok(batch(None, "c1", vec![sample("1", 1, "true")])), None, MS, 1);
    assert_eq!(runner.state.checkpoint.to_json().render(), before);
    assert_eq!(runner.state.view.health, TargetHealth::Unknown);
    assert!(matches!(runner.on_due(false, false, None, u64::MAX), Due::Stop));
}

#[test]
fn replies_for_another_presence_do_not_count() {
    let mut runner = Runner::new(state(), Some(1), 0);
    assert!(matches!(runner.on_due(true, false, Some(1), 0), Due::Call(_)));
    let before = runner.state.checkpoint.to_json().render();
    runner.on_reply(Ok(batch(None, "c1", vec![sample("1", 1, "true")])), Some(3), MS, 1);
    assert_eq!(runner.state.checkpoint.to_json().render(), before);
}

#[test]
fn commits_follow_one_another() {
    let mut s = state();
    let signals = s.accept(batch(None, "c1", vec![sample("1", 1, "true")]), 0, MS, 7).unwrap();
    let commit = s.plan_commit(signals, 7).unwrap().unwrap();
    assert_eq!(commit.sequence, 1);
    assert_eq!(commit.monitor_id, "m");
    s.committed(1);
    assert!(s.plan_commit(vec![], 8).unwrap().is_none());
}

#[test]
fn checkpoints_are_bound_to_their_source() {
    let d = definition("m");
    let other = SourceCheckpoint::new(&{
        let mut x = definition("m");
        x.method = "other".into();
        x
    });
    let refused = MonitorState::restore(d, Some((other, 3)), 0).err().unwrap();
    assert_eq!(
        refused.message(),
        "invalid monitoring configuration: monitor m changed source identity; use a new monitor ID"
    );
    let same = SourceCheckpoint::new(&definition("m"));
    assert_eq!(MonitorState::restore(definition("m"), Some((same, 3)), 0).ok().unwrap().commit_sequence, 3);
}

#[test]
fn stopped_engines_show_no_verdict() {
    let mut engine = MonitorEngine::new();
    let mut s = state();
    engine.register(&s);
    s.accept(batch(None, "c1", vec![sample("1", 1, "true"), sample("2", 2, "true")]), 0, MS, 1).unwrap();
    engine.publish(&s);
    assert_eq!(engine.monitor("m").unwrap().health, TargetHealth::Healthy);
    assert!(engine.drained().is_none());
    assert!(!engine.begin_shutdown());
    let shown = engine.snapshot();
    assert!(!shown.running);
    assert_eq!(shown.monitors[0].health, TargetHealth::Unknown);
    assert!(engine.monitor_finished("m"));
    assert!(engine.drained().unwrap().is_ok());
    assert!(engine.definition("m").is_some());
    assert!(engine.definition("n").is_none());
}

#[test]
fn failures_stop_the_engine() {
    let mut engine = MonitorEngine::new();
    engine.register(&state());
    engine.fail("disk full");
    assert!(!engine.accepting);
    assert_eq!(engine.snapshot().runtime_error.as_deref(), Some("disk full"));
    assert!(fatal(&IncidentError::Unavailable("x".into())));
    assert!(!fatal(&IncidentError::Invalid("x".into())));
}

fn discovery(max: usize) -> DiscoveryState {
    let mut template = definition("d");
    template.id = "svc".into();
    template.target_id = "svc".into();
    let config = MonitorDiscovery {
        id: "inventory".into(),
        extension_id: "plugin".into(),
        contract: "demo.health".into(),
        version: 1,
        method: "list".into(),
        params: json("{}"),
        interval_ms: 1000,
        timeout_ms: 500,
        max_targets: max,
        parameter: "host".into(),
        template,
    };
    DiscoveryState::restore(config, None).ok().unwrap()
}

fn found(keys: &[&str], complete: bool) -> DiscoveryBatch {
    DiscoveryBatch {
        schema_version: 1,
        complete,
        targets: keys.iter().map(|k| DiscoveryTarget { key: k.to_string() }).collect(),
        error: if complete { None } else { Some("partial".into()) },
    }
}

#[test]
fn presence_follows_inventories() {
    let mut d = discovery(4);
    let first = found(&["a", "b"], true);
    let admission = d.examine(&first, true).ok().unwrap();
    assert_eq!(admission.additions, vec!["a", "b"]);
    let mut s = store();
    assert!(s.checkpoint("discovery.inventory").is_none());
    apply(&mut s, d.enroll(admission.known, 1).ok().unwrap());
    let held = s.checkpoint(&d.checkpoint_id()).unwrap();
    assert_eq!(held.sequence, 1);
    assert_eq!(held.value.get("keys").unwrap().render(), "[\"a\",\"b\"]");
    d.settle(&first, &admission.additions, &s, 1, true).ok().unwrap();
    assert_eq!((d.presence("a"), d.presence("b")), (1, 1));
    assert_eq!(observation_epoch(1), Some(1));
    assert_eq!(observation_epoch(2), None);
    assert!(observation_pending(0));
    // A partial inventory says nothing of absence.
    let partial = found(&["a"], false);
    d.settle(&partial, &vec![], &s, 2, true).ok().unwrap();
    assert_eq!(d.presence("b"), 1);
    let whole = found(&["a"], true);
    let snapshot = d.settle(&whole, &vec![], &s, 3, true).ok().unwrap();
    assert_eq!(d.presence("b"), 2);
    assert_eq!((snapshot.known_targets, snapshot.present_targets), (2, 1));
    // A known target stays known, and its identity is its own.
    assert_eq!(d.keys(), vec!["a", "b"]);
    assert_ne!(d.definition("a").id, d.definition("b").id);
    assert_eq!(d.definition("a").params.get("host").unwrap().render(), "\"a\"");
}

#[test]
fn inventories_are_bounded() {
    let d = discovery(1);
    assert_eq!(
        d.examine(&found(&["a", "b"], true), true).err().unwrap().message(),
        "invalid observation: discovery lifetime target capacity exhausted"
    );
    assert_eq!(
        d.examine(&found(&["a", "a"], true), true).err().unwrap().message(),
        "invalid observation: invalid or duplicate discovered key"
    );
    assert!(matches!(d.examine(&found(&["a"], true), false), Err(MonitorError::Stopped)));
    let mut wrong = found(&["a"], true);
    wrong.schema_version = 2;
    assert_eq!(
        d.examine(&wrong, true).err().unwrap().message(),
        "invalid observation: invalid discovery response or limits"
    );
    let commit = d.enroll(vec!["a".into()], 5).ok().unwrap();
    assert_eq!(commit.sequence, 1);
    assert!(commit.checkpoint.get("keys").unwrap().equals(&json("[\"a\"]")));
    assert!(matches!(after_round(Ok(())), Round::Continue));
    assert!(matches!(after_round(Err(MonitorError::Stopped)), Round::Stop));
    assert!(matches!(after_round(Err(MonitorError::Observation("x".into()))), Round::Reject(_)));
}

// Incidents.

fn signal(condition: SignalCondition) -> IncidentSignal {
    IncidentSignal {
        monitor_id: "m".into(),
        target_id: "target".into(),
        rule_id: "health".into(),
        kind: IncidentKind::Target,
        condition,
        summary: "down".into(),
        evidence: json("{}"),
    }
}

fn commit(sequence: u64, signals: Vec<IncidentSignal>, now: u64) -> MonitorCommit {
    MonitorCommit { monitor_id: "m".into(), sequence, checkpoint: json("{\"c\":1}"), signals, now_ms: now }
}

fn store() -> IncidentStore {
    IncidentStore::open(IncidentStoreConfig::default(), 0).ok().unwrap()
}

fn apply(store: &mut IncidentStore, commit: MonitorCommit) {
    let entry = store.commit(commit).ok().unwrap().unwrap();
    store.reserve(100).ok().unwrap();
    store.install(&entry).ok().unwrap();
}

#[test]
fn episodes_open_and_resolve() {
    let mut s = store();
    apply(&mut s, commit(1, vec![signal(SignalCondition::Unknown)], 10));
    assert!(s.list().is_empty());
    apply(&mut s, commit(2, vec![signal(SignalCondition::Active)], 20));
    let opened = s.list();
    assert_eq!(opened.len(), 1);
    assert_eq!(opened[0].status, IncidentStatus::Open);
    assert_eq!(opened[0].first_seen, 20);
    apply(&mut s, commit(3, vec![signal(SignalCondition::Active)], 30));
    assert_eq!(s.list().len(), 1);
    assert_eq!(s.list()[0].occurrences, 2);
    let record = &s.list()[0];
    let entry = s.acknowledge(&record.id, record.revision, "op", "seen", 35).ok().unwrap();
    s.reserve(100).ok().unwrap();
    s.install(&entry).ok().unwrap();
    let seen = s.list().remove(0);
    assert_eq!(seen.status, IncidentStatus::Acknowledged);
    assert_eq!(seen.condition, SignalCondition::Active);
    // It is acknowledged once.
    assert!(s.acknowledge(&seen.id, seen.revision, "op", "again", 36).is_err());
    apply(&mut s, commit(4, vec![signal(SignalCondition::Clear)], 40));
    let resolved = s.get(&seen.id).unwrap();
    assert_eq!(resolved.status, IncidentStatus::Resolved);
    assert_eq!(resolved.resolved_at, Some(40));
    apply(&mut s, commit(5, vec![signal(SignalCondition::Active)], 50));
    assert_eq!(s.list().len(), 2);
}

#[test]
fn resolved_incidents_stay_as_they_are() {
    let mut s = store();
    apply(&mut s, commit(1, vec![signal(SignalCondition::Active), signal(SignalCondition::Clear)], 10));
    let closed = s.list().remove(0);
    assert_eq!(closed.status, IncidentStatus::Resolved);
    assert_eq!(closed.condition, SignalCondition::Clear);
    assert_eq!((closed.first_seen, closed.last_seen, closed.resolved_at), (10, 10, Some(10)));
    assert_eq!(closed.occurrences, 1);
    apply(&mut s, commit(2, vec![signal(SignalCondition::Clear), signal(SignalCondition::Active)], 20));
    let all = s.list();
    assert_eq!(all.len(), 2);
    assert!(all[0].id < all[1].id);
    let again = s.get(&closed.id).unwrap();
    assert_eq!((again.revision, again.last_seen, again.resolved_at), (closed.revision, 10, Some(10)));
}

#[test]
fn closed_stores_only_read() {
    let mut s = store();
    apply(&mut s, commit(1, vec![signal(SignalCondition::Active)], 10));
    let id = s.list()[0].id.clone();
    assert!(s.close().is_ok());
    assert_eq!(s.list().len(), 1);
    assert!(s.get(&id).is_some());
    assert_eq!(s.checkpoint("m").unwrap().sequence, 1);
    let repeated = commit(1, vec![signal(SignalCondition::Active)], 10);
    assert!(matches!(s.commit(repeated), Err(IncidentError::Unavailable(_))));
    assert!(matches!(s.acknowledge(&id, 1, "op", "seen", 20), Err(IncidentError::Unavailable(_))));
    assert!(matches!(s.reserve(1), Err(IncidentError::Unavailable(_))));
    assert!(s.close().is_ok());
    assert_eq!(s.list().len(), 1);
}

#[test]
fn failed_writes_change_nothing() {
    let mut s = store();
    let entry = s.commit(commit(1, vec![signal(SignalCondition::Active)], 10)).ok().unwrap().unwrap();
    assert!(matches!(s.install(&entry), Err(IncidentError::Unavailable(m)) if m == "no line was reserved"));
    // A line without room leaves the store ready.
    assert!(matches!(s.reserve(usize::MAX), Err(IncidentError::Capacity(_))));
    s.reserve(100).ok().unwrap();
    // The write fails here, and nothing is installed.
    assert!(s.list().is_empty());
    assert!(s.checkpoint("m").is_none());
    assert!(matches!(s.commit(commit(1, vec![], 10)), Err(IncidentError::Unavailable(_))));
    assert!(matches!(s.reserve(100), Err(IncidentError::Unavailable(_))));
    let mut other = store();
    other.reserve(100).ok().unwrap();
    let later = recuvora::recovery::incidents::store::JournalEntry { sequence: 2, ..entry };
    assert!(matches!(other.install(&later), Err(IncidentError::Conflict(m)) if m == "journal sequence"));
}

#[test]
fn commits_advance_by_one_and_time_never_falls() {
    let mut s = store();
    apply(&mut s, commit(1, vec![], 100));
    assert!(s.commit(commit(1, vec![], 100)).ok().unwrap().is_none());
    assert!(matches!(s.commit(commit(3, vec![], 100)), Err(IncidentError::Conflict(_))));
    apply(&mut s, commit(2, vec![], 50));
    assert_eq!(s.checkpoint("m").unwrap().updated_at_ms, 100);
    assert_eq!(s.checkpoint("m").unwrap().sequence, 2);
    assert!(s.checkpoint("other").is_none());
}

#[test]
fn acknowledgements_are_checked() {
    let mut s = store();
    apply(&mut s, commit(1, vec![signal(SignalCondition::Active)], 10));
    let r = s.list().remove(0);
    assert!(matches!(s.acknowledge("none", 1, "op", "", 1), Err(IncidentError::NotFound(_))));
    assert!(matches!(s.acknowledge(&r.id, r.revision + 1, "op", "", 1), Err(IncidentError::Conflict(_))));
    assert!(matches!(s.acknowledge(&r.id, r.revision, "", "", 1), Err(IncidentError::Invalid(_))));
    assert!(matches!(s.acknowledge(&r.id, r.revision, "op", &"x".repeat(4097), 1), Err(IncidentError::Invalid(_))));
}

#[test]
fn stores_stay_within_their_limits() {
    let limits = IncidentStoreConfig { max_incidents: 1, max_monitors: 1, max_journal_bytes: 150 };
    let mut s = IncidentStore::open(limits, 0).ok().unwrap();
    apply(&mut s, commit(1, vec![signal(SignalCondition::Active)], 10));
    let mut other = commit(1, vec![], 10);
    other.monitor_id = "n".into();
    assert!(matches!(s.commit(other), Err(IncidentError::Capacity(_))));
    assert!(matches!(s.reserve(100), Err(IncidentError::Capacity(_))));
    s.close();
    assert!(s.commit(commit(2, vec![], 11)).is_err());
}

#[test]
fn monitor_configurations_are_bounded() {
    assert!(recuvora::monitors::config::check_config_size(262144).is_ok());
    let refused = recuvora::monitors::config::check_config_size(262145).err().unwrap();
    assert!(refused.message().ends_with("configuration exceeds 256 KiB"));
}
