use recuvora::json::{Json, Real};
use recuvora::recovery::approval::places as approval_places;
use recuvora::recovery::approval::store::{check_journal, check_line, ApprovalStore, Step};
use recuvora::recovery::approval::transitions::request_id;
use recuvora::recovery::approval::{
    ApprovalDecision, ApprovalError, ApprovalPolicy, ApprovalState, ApprovalStoreConfig, ExecutionOutcome, ModelAssessment,
    ProposedOperation, ReviewerConfig, ReviewerIdentity,
};
use recuvora::recovery::engine::actor::{Cancellation, Engine, Submission};
use recuvora::recovery::engine::{
    execute, validate_lookup_id, verify, EngineConfig, EngineError, JournalRecord, Outcome, Simulation, TaskSpec, TaskState, Work,
};
use recuvora::recovery::incidents::places as journal_places;
use recuvora::paths::{Location, Part, Volume};
use recuvora::time::Span;

fn convert(value: &serde_json::Value) -> Json {
    match value {
        serde_json::Value::Null => Json::Null,
        serde_json::Value::Bool(b) => Json::Bool(*b),
        serde_json::Value::Number(n) => {
            if let Some(u) = n.as_u64() {
                Json::Unsigned(u)
            } else if let Some(i) = n.as_i64() {
                Json::Negative(i)
            } else {
                let f = n.as_f64().unwrap();
                let bits = f.to_bits();
                let raw = ((bits >> 52) & 0x7ff) as i16;
                let fraction = (bits & 0xf_ffff_ffff_ffff) as i64;
                let (m, e) = if raw == 0 { (fraction, -1074) } else { (fraction | (1 << 52), raw - 1075) };
                Json::Real(Real { text: n.to_string(), mantissa: if f < 0.0 { -m } else { m }, exponent: e })
            }
        }
        serde_json::Value::String(s) => Json::Text(s.clone()),
        serde_json::Value::Array(list) => Json::Array(list.iter().map(convert).collect()),
        serde_json::Value::Object(map) => Json::Object(map.iter().map(|(k, v)| (k.clone(), convert(v))).collect()),
    }
}

fn json(text: &str) -> Json {
    convert(&serde_json::from_str(text).unwrap())
}

fn engine() -> Engine {
    Engine::open(EngineConfig::default()).ok().unwrap()
}

fn task(id: &str, target: &str) -> TaskSpec {
    TaskSpec::simulated(id.into(), target.into(), Simulation::Succeed).authorize_simulation()
}

fn accept(engine: &mut Engine, spec: TaskSpec) {
    match engine.submit(spec) {
        Submission::Append(record) => {
            engine.reserve(10).ok().unwrap();
            engine.accepted(record, 10);
        }
        Submission::Refused(e) => panic!("{}", e.message()),
        Submission::Known(_) => panic!("known"),
    }
}

fn install(engine: &mut Engine, record: JournalRecord) {
    engine.reserve(10).ok().unwrap();
    engine.install(record, 10);
}

fn step(engine: &mut Engine, id: &str, state: TaskState) {
    let record = engine.transition(id, state).ok().unwrap();
    install(engine, record);
}

fn run(engine: &mut Engine, id: &str) {
    step(engine, id, TaskState::Diagnosing);
    engine.dispatched(id);
}

#[test]
fn tasks_take_only_allowed_steps() {
    let all = [TaskState::Queued, TaskState::Diagnosing, TaskState::Executing, TaskState::Verifying, TaskState::Succeeded, TaskState::Failed, TaskState::Denied, TaskState::Canceled, TaskState::TimedOut, TaskState::Unknown];
    for s in all {
        for next in all {
            if s.is_terminal() {
                assert!(!s.allows(next));
            }
            if next == TaskState::Succeeded && s.allows(next) {
                assert_eq!(s, TaskState::Verifying);
            }
        }
        if !s.is_terminal() && s != TaskState::Queued {
            assert!(s.allows(s.interrupted(true)));
            assert!(s.allows(s.interrupted(false)));
        }
    }
    assert_eq!(TaskState::Executing.interrupted(false), TaskState::Unknown);
    assert_eq!(TaskState::Executing.interrupted(true), TaskState::Unknown);
    assert_eq!(TaskState::Diagnosing.interrupted(true), TaskState::TimedOut);
    assert_eq!(TaskState::Diagnosing.interrupted(false), TaskState::Canceled);
}

#[test]
fn tasks_succeed_after_verification() {
    let mut e = engine();
    accept(&mut e, task("t", "x"));
    assert_eq!(e.query("t").unwrap().state, TaskState::Queued);
    assert!(matches!(e.submit(task("t", "x")), Submission::Known(_)));
    assert!(matches!(e.submit(task("t", "y")), Submission::Refused(EngineError::Conflict)));
    assert_eq!(e.next_dispatch().as_deref(), Some("t"));
    run(&mut e, "t");
    for state in [TaskState::Executing, TaskState::Verifying] {
        let record = e.stage("t", state, false).ok().unwrap();
        install(&mut e, record);
    }
    let record = e.complete("t", Outcome::Succeeded).ok().unwrap();
    install(&mut e, record);
    e.completed("t");
    let done = e.query("t").unwrap();
    assert_eq!(done.state, TaskState::Succeeded);
    assert_eq!(done.revision, 4);
    assert!(e.running().is_empty());
}

#[test]
fn unauthorized_tasks_are_denied() {
    let mut e = engine();
    accept(&mut e, TaskSpec::simulated("t".into(), "x".into(), Simulation::Succeed));
    let record = e.next_dispatch();
    assert_eq!(record, None);
    assert_eq!(e.query("t").unwrap().state, TaskState::Denied);
}

#[test]
fn targets_are_exclusive_and_unknown_ones_stay_blocked() {
    let mut e = engine();
    accept(&mut e, task("a", "x"));
    accept(&mut e, task("b", "x"));
    accept(&mut e, task("c", "y"));
    assert_eq!(e.next_dispatch().as_deref(), Some("a"));
    run(&mut e, "a");
    assert_eq!(e.next_dispatch().as_deref(), Some("c"));
    let record = e.stage("a", TaskState::Executing, false).ok().unwrap();
    install(&mut e, record);
    let record = e.complete("a", Outcome::MissingReceipt).ok().unwrap();
    install(&mut e, record);
    e.completed("a");
    assert_eq!(e.query("a").unwrap().state, TaskState::Unknown);
    e.block_unknown();
    assert_eq!(e.next_dispatch().as_deref(), Some("c"));
    run(&mut e, "c");
    assert_eq!(e.next_dispatch(), None);
}

#[test]
fn waiting_tasks_are_canceled() {
    let mut e = engine();
    accept(&mut e, task("a", "x"));
    match e.cancel("a") {
        Cancellation::Append(record) => {
            assert_eq!(record.snapshot.state, TaskState::Canceled);
            install(&mut e, record);
        }
        _ => panic!("expected a record"),
    }
    assert!(matches!(e.cancel("nothing"), Cancellation::Answer(None)));
    assert!(matches!(e.cancel("a"), Cancellation::Answer(Some(_))));
}

#[test]
fn journals_replay() {
    let mut e = engine();
    accept(&mut e, task("a", "x"));
    let first = JournalRecord { format: 1, sequence: 1, snapshot: e.query("a").unwrap() };
    let mut other = engine();
    other.replay(first, 10).ok().unwrap();
    assert_eq!(other.query("a").unwrap().state, TaskState::Queued);
    let again = JournalRecord { format: 1, sequence: 1, snapshot: e.query("a").unwrap() };
    assert!(matches!(other.replay(again, 10), Err(EngineError::Corrupt(_))));
    let record = other.next_interrupted().unwrap();
    assert_eq!(record.snapshot.state, TaskState::Canceled);
}

#[test]
fn simulations_do_as_they_say() {
    assert_eq!(execute(Simulation::Succeed), Work::Verify);
    assert_eq!(execute(Simulation::Fail), Work::End(Outcome::Failed));
    assert_eq!(execute(Simulation::Hang), Work::Forever);
    assert_eq!(execute(Simulation::Exit), Work::End(Outcome::MissingReceipt));
    assert_eq!(execute(Simulation::Delay { millis: 7 }), Work::Sleep(7));
    assert_eq!(verify(Simulation::VerificationFailed), Outcome::Failed);
    assert_eq!(verify(Simulation::Succeed), Outcome::Succeeded);
}

#[test]
fn tasks_are_checked() {
    assert!(task("", "x").validate().is_err());
    assert!(task("a", "").validate().is_err());
    assert!(task("a", "x").with_timeout(Span::from_secs(0)).validate().is_err());
    assert!(task("a", "x").with_timeout(Span::from_secs(1)).validate().is_ok());
    assert!(validate_lookup_id("").is_err());
    assert!(validate_lookup_id("a").is_ok());
    let none = EngineConfig { max_concurrency: 0, ..EngineConfig::default() };
    assert!(none.validate().is_err());
    let full = EngineConfig { max_journal_bytes: 5, ..EngineConfig::default() };
    if let Ok(e) = Engine::open(full) {
        assert!(matches!(e.reserve(6), Err(EngineError::JournalFull)));
    }
}

// Approvals.

fn policy(reviewer: ReviewerConfig) -> ApprovalPolicy {
    ApprovalPolicy {
        id: "p".into(),
        version: 1,
        reviewer,
        delegation: "fix text".into(),
        allowed_targets: vec!["x".into()],
        allowed_action_kinds: vec!["text_replace".into()],
        ttl_secs: 100,
    }
}

fn operation(id: &str, target: &str) -> ProposedOperation {
    ProposedOperation {
        task_id: "task".into(),
        task_revision: 1,
        operation_id: id.into(),
        target: target.into(),
        action: json("{\"kind\":\"text_replace\",\"path\":\"a.txt\"}"),
    }
}

fn store() -> ApprovalStore {
    ApprovalStore::open(ApprovalStoreConfig::default(), 0, 7).ok().unwrap()
}

fn write(store: &mut ApprovalStore, step: Result<Step, ApprovalError>) -> String {
    match step {
        Ok(Step::Append(entry)) => {
            store.reserve(100).ok().unwrap();
            store.install(&entry).ok().unwrap().request.request_id
        }
        Ok(_) => panic!("nothing to write"),
        Err(e) => panic!("{}", e.message()),
    }
}

fn state(store: &ApprovalStore, id: &str) -> ApprovalState {
    store.get(id).unwrap().state
}

#[test]
fn approvals_are_decided_used_once_and_final() {
    let p = policy(ReviewerConfig::Human);
    let mut s = store();
    let step = s.request(operation("o", "x"), policy(ReviewerConfig::Human), 1000);
    let id = write(&mut s, step);
    assert_eq!(state(&s, &id), ApprovalState::Pending);
    assert!(matches!(
        s.request(operation("o", "x"), policy(ReviewerConfig::Human), 1001),
        Ok(Step::Existing(_))
    ));
    let step = s.decide_human(&id, ApprovalDecision::Approve, "fine".into(), "op".into(), &p, 1001);
    write(&mut s, step);
    assert_eq!(state(&s, &id), ApprovalState::Approved);
    let intent = match s.consume(&id, &operation("o", "x"), &p, 1002) {
        Ok(Step::Append(entry)) => entry,
        _ => panic!("no intent"),
    };
    s.reserve(100).ok().unwrap();
    let permit = s.install_intent(&intent).ok().unwrap();
    assert_eq!(permit.request_id(), id);
    assert_eq!(permit.operation().operation_id, "o");
    assert!(permit.operation().action.equals(&operation("o", "x").action));
    assert_eq!(state(&s, &id), ApprovalState::Executing);
    assert_eq!(s.get(&id).unwrap().revision, 2);
    // Neither the same line nor one without room yields another permit.
    assert!(matches!(s.install_intent(&intent), Err(ApprovalError::Conflict)));
    s.reserve(100).ok().unwrap();
    assert!(s.install_intent(&intent).is_err());
    assert_eq!(state(&s, &id), ApprovalState::Executing);
}

#[test]
fn consumed_approvals_run_to_their_end() {
    let p = policy(ReviewerConfig::Human);
    let mut s = store();
    let step = s.request(operation("o", "x"), policy(ReviewerConfig::Human), 1000);
    let id = write(&mut s, step);
    let step = s.decide_human(&id, ApprovalDecision::Approve, "fine".into(), "op".into(), &p, 1001);
    write(&mut s, step);
    let intent = match s.consume(&id, &operation("o", "x"), &p, 1002) {
        Ok(Step::Append(entry)) => entry,
        _ => panic!("no intent"),
    };
    s.reserve(100).ok().unwrap();
    let permit = s.install_intent(&intent).ok().unwrap();
    assert!(matches!(
        s.consume(&id, &operation("o", "x"), &p, 1003),
        Err(ApprovalError::InvalidState(ApprovalState::Executing))
    ));
    let step = s.complete(permit, ExecutionOutcome::Executed, "done".into(), 1004);
    write(&mut s, step);
    assert_eq!(state(&s, &id), ApprovalState::Executed);
    assert!(s.revoke(&id, "late".into(), 1005).is_err());
    assert_eq!(s.get(&id).unwrap().revision, 3);
}

#[test]
fn requests_stay_in_scope_and_expire() {
    let mut s = store();
    let step = s.request(operation("o", "elsewhere"), policy(ReviewerConfig::Human), 1);
    let outside = write(&mut s, step);
    let p = policy(ReviewerConfig::Human);
    assert!(matches!(
        s.decide_human(&outside, ApprovalDecision::Approve, "fine".into(), "op".into(), &p, 2),
        Err(ApprovalError::OutOfScope)
    ));
    let mut s = store();
    let step = s.request(operation("o", "x"), policy(ReviewerConfig::Human), 1000);
    let id = write(&mut s, step);
    let p = policy(ReviewerConfig::Human);
    let late = s.decide_human(&id, ApprovalDecision::Approve, "fine".into(), "op".into(), &p, 1100);
    match late {
        Ok(Step::Expire(entry)) => {
            s.reserve(100).ok().unwrap();
            s.install(&entry).ok().unwrap();
        }
        _ => panic!("expected an expiry"),
    }
    assert_eq!(state(&s, &id), ApprovalState::Expired);
}

#[test]
fn only_the_named_model_assesses() {
    let p = policy(ReviewerConfig::Harness { harness_id: "judge".into() });
    let mut s = store();
    let step = s.request(operation("o", "x"), policy(ReviewerConfig::Harness { harness_id: "judge".into() }), 10);
    let id = write(&mut s, step);
    let word = |id: &str| ModelAssessment { request_id: id.into(), decision: ApprovalDecision::Approve, reason: "ok".into() };
    let who = |h: &str| ReviewerIdentity { harness_id: h.into(), session_id: "s".into() };
    assert!(s.assess(&id, word(&id), who("other"), &p, 11).is_err());
    assert!(s.assess(&id, word("elsewhere"), who("judge"), &p, 11).is_err());
    let step = s.assess(&id, word(&id), who("judge"), &p, 11);
    write(&mut s, step);
    assert_eq!(state(&s, &id), ApprovalState::Approved);
}

#[test]
fn interrupted_executions_are_unknown_until_reconciled() {
    let p = policy(ReviewerConfig::Human);
    let mut s = store();
    let step = s.request(operation("o", "x"), policy(ReviewerConfig::Human), 10);
    let id = write(&mut s, step);
    let step = s.decide_human(&id, ApprovalDecision::Approve, "fine".into(), "op".into(), &p, 11);
    write(&mut s, step);
    let intent = match s.consume(&id, &operation("o", "x"), &p, 12) {
        Ok(Step::Append(entry)) => entry,
        _ => panic!("no intent"),
    };
    s.reserve(100).ok().unwrap();
    let _permit = s.install_intent(&intent).ok().unwrap();
    assert_eq!(s.interrupted(), vec![id.clone()]);
    let step = s.recover(&id, 13);
    write(&mut s, step);
    assert_eq!(state(&s, &id), ApprovalState::Unknown);
    assert!(s.reconcile_unknown(&id, ExecutionOutcome::Unknown, "r".into(), "op".into(), 14).is_err());
    let step = s.reconcile_unknown(&id, ExecutionOutcome::Failed, "r".into(), "op".into(), 14);
    write(&mut s, step);
    assert_eq!(state(&s, &id), ApprovalState::Failed);
}

#[test]
fn restarts_leave_nothing_executing() {
    let wide = || ApprovalPolicy {
        allowed_targets: vec!["x".into(), "y".into(), "z".into()],
        ..policy(ReviewerConfig::Human)
    };
    let p = wide();
    let mut s = store();
    let mut ids: Vec<String> = Vec::new();
    for name in ["x", "y", "z"] {
        let step = s.request(operation(name, name), wide(), 10);
        ids.push(write(&mut s, step));
    }
    for id in &ids[..2] {
        let step = s.decide_human(id, ApprovalDecision::Approve, "fine".into(), "op".into(), &p, 11);
        write(&mut s, step);
    }
    for (id, name) in ids.iter().zip(["x", "y"]) {
        let intent = match s.consume(id, &operation(name, name), &p, 12) {
            Ok(Step::Append(entry)) => entry,
            _ => panic!("no intent"),
        };
        s.reserve(100).ok().unwrap();
        s.install_intent(&intent).ok().unwrap();
    }
    let cut = s.interrupted();
    assert_eq!(cut, ids[..2].to_vec());
    for id in &cut {
        let was = s.get(id).unwrap().revision;
        let step = s.recover(id, 13);
        write(&mut s, step);
        let now = s.get(id).unwrap();
        assert_eq!((now.state, now.revision, now.updated_at), (ApprovalState::Unknown, was + 1, 13));
        assert_eq!(now.note.as_deref(), Some("host restarted with an unconfirmed execution intent"));
    }
    assert!(s.interrupted().is_empty());
    assert_eq!(state(&s, &ids[2]), ApprovalState::Pending);
    assert_eq!(s.get(&ids[2]).unwrap().updated_at, 10);
}

#[test]
fn request_identities_differ() {
    assert_ne!(request_id(1), request_id(2));
    assert_eq!(request_id(1), request_id(1));
}

#[test]
fn policies_are_checked() {
    assert!(policy(ReviewerConfig::Human).validate().is_ok());
    let mut p = policy(ReviewerConfig::Human);
    p.ttl_secs = 0;
    assert_eq!(p.validate().unwrap_err().message(), "invalid approval input: policy version or TTL");
    let mut p = policy(ReviewerConfig::Human);
    p.allowed_targets = vec![];
    assert!(p.validate().is_err());
    let mut o = operation("o", "x");
    o.action = json("[]");
    assert_eq!(
        o.validate().unwrap_err().message(),
        "invalid approval input: action must be an object with a string kind"
    );
    assert!(check_line(1).is_ok());
    assert!(check_line(usize::MAX).is_err());
    assert!(check_journal(&b"{}".to_vec()).is_err());
    assert!(check_journal(&b"{}\n".to_vec()).is_ok());
}

#[test]
fn limits_are_kept() {
    let config = ApprovalStoreConfig { max_requests: 1, max_journal_bytes: 150 };
    let mut s = ApprovalStore::open(config, 0, 1).ok().unwrap();
    let step = s.request(operation("o", "x"), policy(ReviewerConfig::Human), 10);
    write(&mut s, step);
    assert!(matches!(
        s.request(operation("o2", "x"), policy(ReviewerConfig::Human), 10),
        Err(ApprovalError::Capacity)
    ));
    assert!(matches!(s.reserve(100), Err(ApprovalError::Capacity)));
    assert_eq!(s.list().len(), 1);
}

// Places.

fn disk(names: &[&str]) -> Vec<Part> {
    let mut parts = vec![Part::Volume { verbatim: false, volume: Volume::Disk('C') }, Part::Root];
    parts.extend(names.iter().map(|n| Part::Name(n.to_string())));
    parts
}

fn location(names: &[&str]) -> Location {
    Location { text: names.join("/"), parts: disk(names) }
}

#[test]
fn stores_lie_outside_the_source() {
    assert!(approval_places::check_directory(true, &disk(&["a"]), &vec![false, false]).is_ok());
    assert_eq!(
        approval_places::check_directory(false, &disk(&["a"]), &vec![]).unwrap_err().message(),
        "invalid approval input: data directory must be absolute without parent traversal"
    );
    let mut up = disk(&["a"]);
    up.push(Part::Parent);
    assert!(approval_places::check_directory(true, &up, &vec![]).is_err());
    assert_eq!(
        approval_places::check_directory(true, &disk(&["a"]), &vec![false, true]).unwrap_err().message(),
        "invalid approval input: linked approval directory ancestor"
    );
    assert!(approval_places::check_source(&location(&["a"]), None).is_ok());
    assert!(approval_places::check_source(&location(&["src", "x"]), Some(&location(&["src"]))).is_err());
    assert!(approval_places::check_regular(true, false).is_ok());
    assert!(approval_places::check_regular(true, true).is_err());
    assert!(approval_places::check_opened(true, false, 1).is_ok());
    assert_eq!(
        approval_places::check_opened(true, false, 2).unwrap_err().message(),
        "invalid approval input: hard-linked approval state is forbidden"
    );
    assert!(approval_places::check_opened(false, false, 1).is_err());
}

#[test]
fn journals_lie_where_they_say() {
    assert!(journal_places::check_path(true, true, &disk(&["j"])).is_ok());
    for (absolute, named) in [(false, true), (true, false)] {
        assert!(journal_places::check_path(absolute, named, &disk(&["j"])).is_err());
    }
    assert!(journal_places::check_path(true, true, &vec![Part::Current]).is_err());
    let plain = || journal_places::Ancestor { linked: false, directory: true };
    let link = journal_places::Ancestor { linked: true, directory: true };
    assert!(journal_places::check_ancestors(&vec![plain(), plain()]).is_ok());
    assert!(journal_places::check_ancestors(&vec![plain(), link]).is_err());
    assert!(journal_places::check_source(&location(&["src"]), Some(&location(&["src"]))).is_err());
    assert!(journal_places::check_regular(true, false, true).is_ok());
    assert_eq!(
        journal_places::check_regular(false, false, true).unwrap_err().message(),
        "invalid incident input: journal handle is not a regular unlinked file"
    );
    assert!(journal_places::check_identity(1, true).is_ok());
    assert!(journal_places::check_identity(2, true).is_err());
    assert!(journal_places::check_identity(1, false).is_err());
    assert!(journal_places::check_handle(1, &disk(&["J"]), &disk(&["j"])).is_ok());
    assert!(journal_places::check_handle(2, &disk(&["j"]), &disk(&["j"])).is_err());
    assert_eq!(
        journal_places::check_handle(1, &disk(&["k"]), &disk(&["j"])).unwrap_err().message(),
        "invalid incident input: journal object path changed"
    );
    assert!(journal_places::windows_components(&vec![Part::Root]).is_err());
}

#[test]
fn commands_settle_what_they_name() {
    let p = policy(ReviewerConfig::Human);
    for (command, expected) in [
        ("approve", ApprovalState::Approved),
        ("deny", ApprovalState::Denied),
        ("revoke", ApprovalState::Revoked),
    ] {
        let mut s = store();
        let step = s.request(operation("o", "x"), policy(ReviewerConfig::Human), 10);
        let id = write(&mut s, step);
        let step = recuvora::boot::reports::settle(&s, command, &id, "said".into(), &p, 11);
        write(&mut s, step);
        assert_eq!(state(&s, &id), expected);
        assert!(recuvora::boot::reports::settle(&s, command, "absent", "said".into(), &p, 12).is_err());
    }
}
