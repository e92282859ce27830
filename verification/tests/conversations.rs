use recuvora::actions::{ActionError, ActionReceipt, ScopedFiles, TextEdit};
use recuvora::boot::arguments::{parse_count, Arguments, ConsoleCommand, Word};
use recuvora::boot::configuration::{
    absolute_normal, check_dangling, check_data_directory, check_harness_path, check_link, check_repair_file,
    extension_protected_paths, glean, must_resolve, Launched, RepairPlaces, ResolvedExtension, ServerPlaces,
};
use recuvora::boot::host::{close, drain_expired, shutdown_result, startup_error, HostConfig, HostError, MonitoringHostConfig};
use recuvora::boot::reports::{
    applied, decided, exit_code, failure_json, host_error, inspect_configuration, inspected_record, inspected_records,
    needs_store_only, needs_target, reconciled as reconciled_report, repair_error, repair_exit_code, select_configuration,
    select_repair, single_configuration, Assembly,
};
use recuvora::boot::{after_faults, as_expected, demonstrate};
use recuvora::framework::calls::DispatchError;
use recuvora::framework::RuntimeSnapshot;
use recuvora::harnesses::projects::{
    canonicalize_provider_directory, normalize_project_list_result, validate_client_project_grouping, HarnessProject, Platform,
    Probe,
};
use recuvora::harnesses::provider::{check_tool_method, tool_reply, HarnessToolCall, HarnessToolResult, ToolScope};
use recuvora::harnesses::registry::{
    finish_create, finish_run, HarnessRegistry, HarnessRegistryBuilder, HarnessRunResult, RootProbe,
};
use recuvora::harnesses::remote::{valid_remote_path, validate_remote_definition, RemoteWorkspace};
use recuvora::harnesses::requests::{
    validate_run_request, HarnessProjectCreateRequest, HarnessProjectListRequest, HarnessRunRequest, HarnessTool, Resolution,
};
use recuvora::harnesses::{
    check_config_size, validate_identifier, ClientProjectGrouping, ConversationPlacement, ConversationUncertainty,
    ConversationVisibility, HarnessDefinition, HarnessError, HarnessRegistryConfig, HarnessRole,
};
use recuvora::interfaces::repair::{parse, result_json};
use recuvora::interfaces::steps::{next_step, Budget, CliStep, Seen};
use recuvora::interfaces::ui::asset;
use recuvora::interfaces::views::{choose_harness, error_json, list_json, place_run, remaining, run_json};
use recuvora::interfaces::{check_prompt_file, parse_harness, read_prompt, HarnessCommand, Prompt};
use recuvora::json::{Json, Real};
use recuvora::monitors::MonitorsConfig;
use recuvora::paths::{Location, Part, Volume};
use recuvora::recovery::approval::store::{ApprovalStore, Step};
use recuvora::recovery::approval::{
    ApprovalDecision, ApprovalError, ApprovalPolicy, ApprovalState, ApprovalStoreConfig, ExecutionOutcome, ReviewerConfig,
};
use recuvora::recovery::engine::TaskState;
use recuvora::recovery::workflow::tools::{
    after_review, assessment_refused, repair_tools, review, review_answer, AfterReview, RepairTool, RepairTools, Review, Verdict,
};
use recuvora::recovery::workflow::{
    execution_outcome, now, reconciled, repair_status, RepairConfig, RepairResult, RepairSession, RepairStatus, WorkflowError,
};
use recuvora::server::details::{active_configuration, approval_detail};
use recuvora::server::views::Rights;
use recuvora::time::Span;

fn convert(value: &serde_json::Value) -> Json {
    match value {
        serde_json::Value::Null => Json::Null,
        serde_json::Value::Bool(b) => Json::Bool(*b),
        serde_json::Value::Number(n) => {
            if let Some(u) = n.as_u64() {
                Json::Unsigned(u)
            } else if let Some(i) = n.as_i64() {
                Json::Negative(i)
            } else {
                let f = n.as_f64().unwrap();
                let bits = f.to_bits();
                let raw = ((bits >> 52) & 0x7ff) as i16;
                let fraction = (bits & 0xf_ffff_ffff_ffff) as i64;
                let (m, e) = if raw == 0 { (fraction, -1074) } else { (fraction | (1 << 52), raw - 1075) };
                Json::Real(Real { text: n.to_string(), mantissa: if f < 0.0 { -m } else { m }, exponent: e })
            }
        }
        serde_json::Value::String(s) => Json::Text(s.clone()),
        serde_json::Value::Array(list) => Json::Array(list.iter().map(convert).collect()),
        serde_json::Value::Object(map) => Json::Object(map.iter().map(|(k, v)| (k.clone(), convert(v))).collect()),
    }
}

fn json(text: &str) -> Json {
    convert(&serde_json::from_str(text).unwrap())
}

fn place(names: &[&str]) -> Location {
    let mut parts = vec![Part::Root];
    parts.extend(names.iter().map(|n| Part::Name(n.to_string())));
    Location { text: format!("/{}", names.join("/")), parts }
}

fn disk(names: &[&str]) -> Location {
    let mut parts = vec![Part::Volume { verbatim: false, volume: Volume::Disk('C') }, Part::Root];
    parts.extend(names.iter().map(|n| Part::Name(n.to_string())));
    Location { text: format!("C:\\{}", names.join("\\")), parts }
}

fn definition(id: &str) -> HarnessDefinition {
    HarnessDefinition {
        id: id.into(),
        adapter: "demo".into(),
        address: "local://demo".into(),
        enabled: true,
        workspace_roots: vec![place(&["work"])],
    }
}

fn found(names: &[&str]) -> Resolution {
    Resolution::Resolved { location: place(names), directory: true }
}

fn registry() -> HarnessRegistry {
    let mut builder = HarnessRegistryBuilder::new();
    builder.register("demo".into()).ok().unwrap();
    let config = HarnessRegistryConfig {
        schema_version: 1,
        default_harness: Some("a".into()),
        harnesses: vec![definition("a"), definition("b")],
    };
    let mut r = builder.begin(&config).ok().unwrap();
    for d in &config.harnesses {
        let probe = RootProbe::Resolved { location: place(&["work"]), directory: true };
        r.insert(builder.prepare(d, &vec![probe]).ok().unwrap());
    }
    r
}

#[test]
fn registry_configurations_are_checked() {
    let config = |harnesses| HarnessRegistryConfig { schema_version: 1, default_harness: None, harnesses };
    assert!(config(vec![definition("a")]).validate().is_ok());
    assert!(matches!(
        config(vec![definition("a"), definition("a")]).validate(),
        Err(HarnessError::DuplicateHarness(_))
    ));
    let mut version = config(vec![]);
    version.schema_version = 9;
    assert!(version.validate().is_err());
    let mut unknown = config(vec![definition("a")]);
    unknown.default_harness = Some("z".into());
    assert!(unknown.validate().is_err());
    assert!(validate_identifier("Harness id", "a b").is_err());
    assert!(check_config_size(65536).is_ok());
    assert!(check_config_size(65537).is_err());
}

#[test]
fn only_registered_adapters_build() {
    let mut builder = HarnessRegistryBuilder::new();
    assert!(matches!(builder.prepare(&definition("a"), &vec![]), Err(HarnessError::UnsupportedAdapter(_))));
    builder.register("demo".into()).ok().unwrap();
    assert!(matches!(builder.register("demo".into()), Err(HarnessError::DuplicateAdapter(_))));
    let gone = RootProbe::Unresolved("no such directory".into());
    assert!(builder.prepare(&definition("a"), &vec![gone]).is_err());
}

#[test]
fn routing_never_falls_back() {
    let r = registry();
    assert_eq!(r.entry(Some("b")).ok().unwrap().id, "b");
    assert_eq!(r.entry(None).ok().unwrap().id, "a");
    assert!(matches!(r.entry(Some("z")), Err(HarnessError::UnknownHarness(_))));
    let mut off = registry();
    let mut d = definition("a");
    d.enabled = false;
    off.insert(d);
    assert!(matches!(off.entry(None), Err(HarnessError::HarnessDisabled(_))));
}

#[test]
fn accepted_runs_stay_in_scope() {
    let request = || HarnessRunRequest::new(place(&["work", "x"]), "hello".into());
    let ok = validate_run_request(&definition("a"), request(), &found(&["work", "x"])).ok().unwrap();
    assert_eq!(ok.project_directory().text, "/work/x");
    assert_eq!(ok.prompt(), "hello");
    // What was accepted is accepted again.
    assert!(validate_run_request(&definition("a"), ok, &found(&["work", "x"])).is_ok());
    assert!(matches!(
        validate_run_request(&definition("a"), request(), &found(&["else"])),
        Err(HarnessError::WorkspaceDenied(_))
    ));
    let empty = HarnessRunRequest::new(place(&["work"]), "  ".into());
    assert!(matches!(
        validate_run_request(&definition("a"), empty, &found(&["work"])),
        Err(HarnessError::InvalidRequest(_))
    ));
    let stopped = request().with_cancellation(true);
    assert!(matches!(
        validate_run_request(&definition("a"), stopped, &found(&["work", "x"])),
        Err(HarnessError::Interrupted { .. })
    ));
    let long = request().with_timeout(Span::from_secs(100000));
    assert!(validate_run_request(&definition("a"), long, &found(&["work", "x"])).is_err());
}

#[test]
fn approvals_are_isolated() {
    let request = HarnessRunRequest::new(place(&["work"]), "judge".into()).with_role(HarnessRole::Approval);
    assert_eq!(request.visibility(), ConversationVisibility::Hidden);
    let open = request.with_visibility(ConversationVisibility::Client);
    assert!(validate_run_request(&definition("a"), open, &found(&["work"])).is_err());
    let tooled = HarnessRunRequest::new(place(&["work"]), "judge".into())
        .with_role(HarnessRole::Approval)
        .with_tools(vec![HarnessTool { name: "t".into(), description: "d".into(), input_schema: json("{}") }]);
    assert!(validate_run_request(&definition("a"), tooled, &found(&["work"])).is_err());
}

fn result(id: &str) -> HarnessRunResult {
    HarnessRunResult {
        harness_id: id.into(),
        adapter: "demo".into(),
        address: "local://demo".into(),
        thread_id: "t".into(),
        session_id: "s".into(),
        project_directory: place(&["work"]),
        visibility: ConversationVisibility::Hidden,
        native_project_id: None,
        client_project_grouping: ClientProjectGrouping::NotApplicable,
        final_response: "done".into(),
    }
}

#[test]
fn results_answer_their_request() {
    let request = HarnessRunRequest::new(place(&["work"]), "p".into()).ephemeral(true);
    assert!(finish_run(&definition("a"), &request, result("a")).is_ok());
    assert!(finish_run(&definition("a"), &request, result("b")).is_err());
    let mut other = result("a");
    other.project_directory = place(&["else"]);
    assert!(finish_run(&definition("a"), &request, other).is_err());
    assert_eq!(
        run_json(&result("a")).get("status").unwrap().render(),
        "\"ok\""
    );
}

fn project(id: &str, root: &[&str]) -> HarnessProject {
    HarnessProject { harness_id: "a".into(), id: id.into(), name: "n".into(), roots: vec![place(root)] }
}

fn probe(names: &[&str]) -> Probe {
    Probe { absolute: true, canonical: Ok((place(names), true)) }
}

#[test]
fn projects_stay_in_scope() {
    let list = vec![project("1", &["work", "x"])];
    let kept = normalize_project_list_result(Platform::Unix, &definition("a"), list, &vec![vec![probe(&["work", "x"])]]);
    assert_eq!(kept.ok().unwrap()[0].name, "n");
    let list = vec![project("1", &["else"])];
    let refused = normalize_project_list_result(Platform::Unix, &definition("a"), list, &vec![vec![probe(&["else"])]]);
    assert!(matches!(refused, Err(HarnessError::ProtocolViolation { .. })));
    let roots = vec![disk(&["work"])];
    let unseen = Probe { absolute: true, canonical: Err("looked at".into()) };
    let outside = canonicalize_provider_directory(Platform::Windows, &disk(&["else"]), &roots, &unseen);
    assert!(!outside.err().unwrap().contains("looked at"));
    assert!(validate_client_project_grouping(
        &definition("a"),
        ConversationVisibility::Hidden,
        &ClientProjectGrouping::NotApplicable
    )
    .is_ok());
}

#[test]
fn creations_are_not_forgotten() {
    let request = HarnessProjectCreateRequest::new("n".into(), place(&["work"]), "key".into());
    let wrong = HarnessProject { harness_id: "b".into(), ..project("1", &["work"]) };
    let e = finish_create(Platform::Unix, &definition("a"), &request, wrong, &vec![probe(&["work"])]).err().unwrap();
    assert!(matches!(e, HarnessError::ProjectCreationOutcomeUnknown(_)));
    assert_eq!(exit_code(&e), 3);
    let r = registry();
    let lost = r.create_undispatched(Some("a"), &request, &DispatchError::Supervisor("panic".into()));
    assert!(matches!(lost, HarnessError::ProjectCreationOutcomeUnknown(_)));
}

#[test]
fn tool_calls_are_taken_once() {
    let tools = vec![HarnessTool { name: "t".into(), description: "d".into(), input_schema: json("{\"type\":\"object\"}") }];
    let call = |id: &str, turn: &str| HarnessToolCall {
        harness_id: "a".into(),
        thread_id: "th".into(),
        turn_id: turn.into(),
        call_id: id.into(),
        tool: "t".into(),
        arguments: json("{}"),
    };
    let mut scope = ToolScope { thread: None, turn: None, calls: vec![] };
    assert!(scope.take("a", &tools, &call("1", "x")).is_ok());
    assert!(scope.take("a", &tools, &call("1", "x")).is_err());
    assert!(scope.take("a", &tools, &call("2", "y")).is_err());
    assert!(scope.take("a", &tools, &call("2", "x")).is_ok());
    assert!(check_tool_method("other").is_err());
    assert!(tool_reply(&HarnessToolResult { content: "c".into(), success: true }).is_ok());
}

#[test]
fn nodes_are_named_by_workspace() {
    let w = RemoteWorkspace { node_id: "n".into(), workspace_id: "w".into() };
    let mut d = definition("a");
    d.adapter = "remote-node".into();
    d.address = "node://n".into();
    d.workspace_roots = vec![Location { text: "w".into(), parts: vec![Part::Name("w".into())] }];
    assert!(validate_remote_definition(&d).is_ok());
    assert!(w.validate(&d).is_ok());
    assert!(RemoteWorkspace { node_id: "m".into(), workspace_id: "w".into() }.validate(&d).is_err());
    assert!(valid_remote_path("/srv/x"));
    assert!(!valid_remote_path(""));
    assert!(HarnessProjectListRequest::remote("n".into(), "w".into()).remote_workspace().is_some());
}

// Interfaces.

fn words(list: &[&str]) -> Vec<Option<String>> {
    list.iter().map(|w| Some(w.to_string())).collect()
}

#[test]
fn harness_commands_are_parsed() {
    assert!(parse_harness(&words(&["--help"])).ok().unwrap().is_none());
    let run = words(&[
        "run", "--config", "c", "--cwd", "d", "--prompt", "hi", "--visibility", "hidden", "--no-project", "--timeout-secs", "9",
    ]);
    let parsed = parse_harness(&run).ok().unwrap().unwrap();
    assert_eq!(parsed.config, 2);
    match parsed.command {
        HarnessCommand::Run { cwd, prompt, visibility, project, timeout_secs, .. } => {
            assert_eq!(cwd, Some(4));
            assert!(matches!(prompt, Prompt::Text(t) if t == "hi"));
            assert_eq!(visibility, ConversationVisibility::Hidden);
            assert!(project.is_none());
            assert_eq!(timeout_secs, 9);
        }
        _ => panic!("expected a run"),
    }
    for bad in [
        vec!["run", "--config", "c"],
        vec!["list"],
        vec!["list", "--config", "c", "--config", "d"],
        vec!["projects", "--config", "c", "--cwd", "d", "--timeout-secs", "1801"],
        vec!["nothing", "--config", "c"],
    ] {
        assert!(parse_harness(&words(&bad)).is_err(), "{bad:?}");
    }
    assert!(parse_harness(&vec![None]).is_err());
    assert!(check_prompt_file(true, 10).is_ok());
    assert!(check_prompt_file(false, 10).is_err());
    assert!(check_prompt_file(true, 65537).is_err());
    assert!(read_prompt(Some("x".into())).is_ok());
    assert!(read_prompt(None).is_err());
}

#[test]
fn commands_stay_with_their_instance() {
    let r = registry();
    let list = parse_harness(&words(&["projects", "--config", "c", "--harness", "b", "--cwd", "d"])).ok().unwrap().unwrap();
    assert_eq!(choose_harness(&r, &list).ok().unwrap().harness, "b");
    let remote = parse_harness(&words(&[
        "projects", "--config", "c", "--harness", "b", "--extensions", "e", "--workspace", "w",
    ]))
    .ok()
    .unwrap()
    .unwrap();
    assert!(choose_harness(&r, &remote).is_err());
    assert!(list_json(&r).get("harnesses").is_some());
    assert!(place_run(&vec![project("1", &["work"])], "a", "1").is_ok());
    assert!(place_run(&vec![project("1", &["work"])], "a", "2").is_err());
    assert!(remaining("a", 5, false, Some(Span::from_secs(1))).is_ok());
    assert!(remaining("a", 5, true, Some(Span::from_secs(1))).is_err());
    assert!(remaining("a", 5, false, None).is_err());
}

#[test]
fn failures_say_what_may_have_happened() {
    let unsure = HarnessError::ConversationOutcomeUnknown(ConversationUncertainty {
        harness: "a".into(),
        thread_id: Some("t".into()),
        project_directory: "/work".into(),
        visibility: ConversationVisibility::Hidden,
        native_project_id: None,
        message: "lost".into(),
    });
    let shown = error_json(&unsure);
    assert_eq!(shown.get("auto_retry").unwrap().render(), "false");
    assert_eq!(shown.get("status").unwrap().render(), "\"unknown\"");
    assert_eq!(exit_code(&unsure), 3);
    let plain = error_json(&HarnessError::NoDefaultHarness);
    assert_eq!(plain.get("auto_retry").unwrap().render(), "false");
    assert_ne!(plain.get("status").unwrap().render(), "\"unknown\"");
    assert_eq!(exit_code(&HarnessError::Interrupted { harness: "a".into() }), 130);
    assert_eq!(exit_code(&HarnessError::NoDefaultHarness), 1);
}

#[test]
fn repair_commands_are_parsed() {
    assert!(parse(&words(&["--help"])).ok().unwrap().is_none());
    let a = parse(&words(&["approve", "--config", "c", "--request", "r", "--reason", "why"])).ok().unwrap().unwrap();
    assert_eq!((a.command.as_str(), a.config), ("approve", 2));
    assert_eq!(a.reason.as_deref(), Some("why"));
    assert_eq!(parse(&words(&["approve", "--config", "c", "--request", "r"])).err().unwrap(), "--reason required");
    assert_eq!(
        parse(&words(&["apply", "--config", "c", "--request", "r", "--x", "y"])).err().unwrap(),
        "unsupported option(s): [\"--x\"]"
    );
    assert_eq!(parse(&words(&["run", "--config", "c", "--config", "d"])).err().unwrap(), "duplicate option");
    assert!(parse(&words(&["fly", "--config", "c"])).is_err());
    assert!(parse(&vec![None]).is_err());
    assert_eq!(asset("index.html"), Some("text/html; charset=utf-8"));
    assert_eq!(asset("secret.txt"), None);
}

// Repairs.

fn policy(reviewer: ReviewerConfig) -> ApprovalPolicy {
    ApprovalPolicy {
        id: "p".into(),
        version: 1,
        reviewer,
        delegation: "fix text".into(),
        allowed_targets: vec!["x".into()],
        allowed_action_kinds: vec!["replace_text".into()],
        ttl_secs: 100,
    }
}

fn config(reviewer: ReviewerConfig) -> RepairConfig {
    RepairConfig {
        schema_version: 1,
        harness_config: "/etc/h.json".into(),
        extensions_config: None,
        execution_workspace: None,
        reviewer_workspace: None,
        execution_harness: "a".into(),
        target_id: "x".into(),
        target_root: "C:\\work".into(),
        reviewer_directory: "C:\\judge".into(),
        data_dir: "C:\\data".into(),
        allowed_files: vec!["a.txt".into()],
        policy: policy(reviewer),
        timeout_secs: 60,
        max_tool_calls: 2,
    }
}

fn session(reviewer: ReviewerConfig) -> RepairSession {
    let files = ScopedFiles::open(disk(&["work"]), &vec!["a.txt".into()], vec![]).ok().unwrap();
    let store = ApprovalStore::open(ApprovalStoreConfig::default(), 0, 1).ok().unwrap();
    match RepairSession::open(config(reviewer), files, store, true, &disk(&["data"]), Some(&disk(&["judge"]))) {
        Ok(s) => s,
        Err(e) => panic!("{}", e.message()),
    }
}

fn tool_call(tool: &str) -> HarnessToolCall {
    HarnessToolCall {
        harness_id: "a".into(),
        thread_id: "th".into(),
        turn_id: "tu".into(),
        call_id: "c1".into(),
        tool: tool.into(),
        arguments: json("{}"),
    }
}

fn install(s: &mut RepairSession, step: Result<Step, ApprovalError>) -> String {
    match step {
        Ok(Step::Append(entry)) => {
            s.store.reserve(100).ok().unwrap();
            s.store.install(&entry).ok().unwrap().request.request_id
        }
        _ => panic!("nothing to write"),
    }
}

#[test]
fn proposals_come_back_as_they_were() {
    let mut s = session(ReviewerConfig::Human);
    let tools = RepairTools::new("task".into(), "please".into());
    let edit = TextEdit { path: "a.txt".into(), expected: "old".into(), replacement: "new".into() };
    let name = repair_tools()[1].name.clone();
    let operation = tools.propose(&s.config, &disk(&["work"]), &tool_call(&name), &edit);
    let step = s.store.request(operation, policy(ReviewerConfig::Human), 1000);
    let id = install(&mut s, step);
    let (pending, _) = s.apply(&id).ok().unwrap();
    assert!(s.apply_intent(&id, None, false, &pending.request.operation, 1000).is_err());
    let step = match s.decide(&id, ApprovalDecision::Approve, "ok".into(), 1001) {
        Ok(step) => Ok(step),
        Err(e) => panic!("{}", e.message()),
    };
    install(&mut s, step);
    let (record, stored) = s.apply(&id).ok().unwrap();
    assert_eq!(record.state, ApprovalState::Approved);
    assert_eq!(stored.get("path").unwrap().render(), "\"a.txt\"");
    assert_eq!(stored.get("expected").unwrap().render(), "\"old\"");
    assert_eq!(stored.get("replacement").unwrap().render(), "\"new\"");
    assert!(matches!(s.apply_versioned(&id, Some(9)), Err(WorkflowError::Approval(ApprovalError::Conflict))));
    assert!(matches!(s.record("none"), Err(WorkflowError::Approval(ApprovalError::NotFound))));
    // A task begins while nothing on its root is unsettled.
    assert!(s.run("task2", "please", false).is_ok());
    let intent = match s.apply_intent(&id, None, false, &record.request.operation, 1002) {
        Ok(Step::Append(entry)) => entry,
        _ => panic!("no intent"),
    };
    s.store.reserve(100).ok().unwrap();
    let _permit = s.store.install_intent(&intent).ok().unwrap();
    assert!(s.run("task2", "please", false).is_err());
    assert_eq!(s.records().len(), 1);
}

#[test]
fn tools_keep_their_budget() {
    let c = config(ReviewerConfig::Human);
    let mut tools = RepairTools::new("task".into(), "please".into());
    let read = repair_tools()[0].name.clone();
    assert!(matches!(tools.enter(&c, &tool_call(&read), false), Ok(RepairTool::Read)));
    assert!(tools.enter(&c, &tool_call(&read), false).is_ok());
    assert!(tools.enter(&c, &tool_call(&read), false).is_err());
    let mut tools = RepairTools::new("task".into(), "please".into());
    tools.canceled("r");
    assert!(tools.enter(&c, &tool_call(&read), false).is_err());
    let mut tools = RepairTools::new("task".into(), "please".into());
    assert!(tools.enter(&c, &tool_call("shell"), false).is_err());
    assert!(!tools.answer(Err(WorkflowError::Invalid("x".into()))).success);
}

#[test]
fn reviews_are_isolated_and_bounded() {
    let c = config(ReviewerConfig::Harness { harness_id: "judge".into() });
    let ask = |prompt: &str, registry: bool| {
        review(&c, &disk(&["judge"]), registry, prompt, json("{\"id\":\"p\"}"), json("{\"request_id\":\"r\"}"), false)
    };
    match ask("please", true) {
        Ok(Review::Ask { harness_id, request }) => {
            assert_eq!(harness_id, "judge");
            assert_eq!(request.role(), HarnessRole::Approval);
            assert_eq!(request.visibility(), ConversationVisibility::Hidden);
            assert!(request.tools().is_empty());
            assert!(request.prompt().contains("\"user_request\":\"please\""));
        }
        _ => panic!("expected a question"),
    }
    assert!(matches!(ask(&"x".repeat(70000), true), Ok(Review::Wait { .. })));
    assert!(ask("please", false).is_err());
    assert!(matches!(review_answer(Ok(result("judge")), false), Verdict::Read { .. }));
    assert!(matches!(review_answer(Ok(result("judge")), true), Verdict::Nothing));
    assert!(matches!(review_answer(Err(HarnessError::NoDefaultHarness), false), Verdict::Wait { .. }));
    assert!(assessment_refused(&ApprovalError::Expired).is_none());
    assert!(assessment_refused(&ApprovalError::Conflict).is_some());
    assert_eq!(after_review(ApprovalState::Approved, false), AfterReview::Apply);
    assert_eq!(after_review(ApprovalState::Denied, false), AfterReview::Report);
    assert_eq!(after_review(ApprovalState::Pending, true), AfterReview::Cancel { open: true });
}

#[test]
fn outcomes_are_told_as_they_are() {
    let edit = TextEdit { path: "a".into(), expected: "old".into(), replacement: "new".into() };
    assert_eq!(reconciled(&edit, "new").ok().unwrap(), ExecutionOutcome::Executed);
    assert_eq!(reconciled(&edit, "old").ok().unwrap(), ExecutionOutcome::Failed);
    assert!(reconciled(&edit, "other").is_err());
    let done = ActionReceipt { path: "a".into(), bytes_written: 3, content_verified: true };
    assert_eq!(execution_outcome(&Ok(done)).0, ExecutionOutcome::Executed);
    assert_eq!(execution_outcome(&Err(ActionError::Changed)).0, ExecutionOutcome::Failed);
    assert_eq!(execution_outcome(&Err(ActionError::Unknown("x".into()))).0, ExecutionOutcome::Unknown);
    assert_eq!(repair_status(&vec![], false, false, false), RepairStatus::Completed);
    assert_eq!(repair_status(&vec![], true, false, false), RepairStatus::Canceled);
    assert_eq!(repair_status(&vec![], false, true, false), RepairStatus::Failed);
    assert_eq!(now(Some(Span::from_secs(5))).ok().unwrap(), 5);
    assert!(now(None).is_err());
    let shown = result_json(
        &RepairResult {
            status: RepairStatus::Unknown,
            task_id: "t".into(),
            final_response: None,
            harness_error: None,
            operations: vec![],
            execution_context: None,
        },
        vec![],
    );
    assert_eq!(shown.get("business_verified").unwrap().render(), "false");
    assert_eq!(repair_exit_code(&shown), 3);
}

// Boot.

fn word(text: &str) -> Word {
    Word { text: Some(text.into()), shown: text.into() }
}

#[test]
fn console_arguments_are_parsed() {
    let args = vec![word("demo"), word("--data-dir"), word("/d"), word("--concurrency"), word("3")];
    let a = Arguments::parse(&args).ok().unwrap().unwrap();
    assert_eq!((a.data_dir, a.concurrency), (2, 3));
    assert!(matches!(a.command, ConsoleCommand::Demo));
    assert!(Arguments::parse(&vec![word("--help")]).ok().unwrap().is_none());
    assert!(Arguments::parse(&vec![word("demo")]).is_err());
    assert!(Arguments::parse(&vec![word("fly")]).is_err());
    assert_eq!(parse_count("12").ok().unwrap(), 12);
    assert!(parse_count("x").is_err());
    assert!(parse_count("").is_err());
    let tasks = demonstrate("run");
    assert!(tasks.iter().all(|t| as_expected(t, t.expected)));
    assert!(as_expected(&after_faults("run"), TaskState::Succeeded));
    assert!(!as_expected(&after_faults("run"), TaskState::Failed));
}

fn places(path: &[&str]) -> RepairPlaces {
    RepairPlaces {
        path: place(path),
        harness_config: place(&["etc", "h.json"]),
        extensions_config: None,
        target_root: place(&["work"]),
        reviewer_directory: place(&["judge"]),
        source: Some(place(&["src"])),
    }
}

#[test]
fn configurations_lie_outside_the_target() {
    assert!(places(&["etc", "r.json"]).check().is_ok());
    assert_eq!(
        places(&["work", "r.json"]).check().unwrap_err().message(),
        "configuration and review context must be outside the repair target"
    );
    assert_eq!(
        places(&["src", "r.json"]).check().unwrap_err().message(),
        "active configurations must be outside the project source tree"
    );
    assert!(places(&["etc"]).check_state(&place(&["work", "state"])).is_err());
    assert!(places(&["etc"]).check_state(&place(&["state"])).is_ok());
    assert!(check_repair_file(true, 10).is_ok());
    assert!(check_repair_file(false, 10).is_err());
    assert!(check_link(false, false).is_ok());
    assert!(check_link(true, false).is_err());
    assert!(check_link(false, true).is_err());
    assert!(absolute_normal(false, &vec![Part::Root, Part::Name("a".into())]).is_ok());
    assert!(absolute_normal(false, &vec![Part::Name("a".into())]).is_err());
    let trimmed = absolute_normal(false, &vec![Part::Root, Part::Name("a".into()), Part::Parent, Part::Name("b".into())]);
    let trimmed = trimmed.ok().unwrap();
    assert!(matches!(&trimmed[..], [Part::Root, Part::Name(name)] if name == "b"));
    assert!(check_dangling(false).is_ok());
    assert!(check_dangling(true).is_err());
    assert!(check_harness_path(&place(&["etc"]), &Some(place(&["src"]))).is_ok());
    assert!(check_harness_path(&place(&["src", "x"]), &Some(place(&["src"]))).is_err());
    assert!(check_data_directory(&place(&["d"]), &place(&["src"])).is_ok());
    assert!(check_data_directory(&place(&["src", "d"]), &place(&["src"])).is_err());
    let (candidates, _) = glean(Some("node"), &vec!["script.js".into()]);
    assert!(!candidates.is_empty());
}

#[test]
fn only_the_given_directory_of_a_remote_approver_stays_unresolved() {
    let judge = place(&["judge"]);
    let written = Location {
        text: "/etc/../judge".into(),
        parts: vec![Part::Root, Part::Name("etc".into()), Part::Parent, Part::Name("judge".into())],
    };
    assert!(!must_resolve(true, &judge, &judge, true));
    assert!(must_resolve(true, &judge, &judge, false));
    assert!(must_resolve(true, &judge, &written, true));
    assert!(must_resolve(true, &place(&["etc", "h.json"]), &judge, true));
    assert!(!must_resolve(true, &place(&["etc"]), &place(&["etc"]), true));
    assert!(!must_resolve(false, &judge, &written, false));
}

fn resolved(program: &[&str], args: &[&str], files: Vec<Option<Location>>) -> ResolvedExtension {
    ResolvedExtension {
        program: place(program),
        package: place(&program[..program.len() - 1]),
        cwd: place(&["var", "run"]),
        args: args.iter().map(|arg| arg.to_string()).collect(),
        files,
    }
}

#[test]
fn extensions_are_protected_whole() {
    let shown = |list: Vec<Location>| list.into_iter().map(|l| l.text).collect::<Vec<_>>();
    let file = place(&["etc", "e.json"]);
    let work = place(&["work"]);
    let one = resolved(
        &["opt", "x", "run"],
        &["--config", "c.json", "plain", "--config=d.json", "script"],
        vec![Some(place(&["cfg", "c"])), None, Some(place(&["cfg", "d"])), Some(place(&["opt", "script"]))],
    );
    let two = resolved(&["usr", "bin", "ssh"], &["--config", "remote"], vec![None, None]);
    let list = extension_protected_paths(&file, &vec![one, two], &work).ok().unwrap();
    let expected = [
        place(&["cfg", "c"]),
        place(&["cfg", "d"]),
        place(&["etc", "e.json"]),
        place(&["opt", "script"]),
        place(&["opt", "x"]),
        place(&["opt", "x", "run"]),
        place(&["usr", "bin"]),
        place(&["usr", "bin", "ssh"]),
        place(&["var", "run"]),
    ];
    assert_eq!(shown(list), expected.iter().map(|l| l.text.clone()).collect::<Vec<_>>());
    let message = |list: Vec<ResolvedExtension>| match extension_protected_paths(&file, &list, &work) {
        Ok(_) => panic!("accepted"),
        Err(e) => e.message(),
    };
    let overlap = "repair target overlaps extension configuration, program or package context";
    assert_eq!(message(vec![resolved(&["work", "x"], &[], vec![])]), overlap);
    assert_eq!(message(vec![resolved(&["opt", "x"], &["w"], vec![Some(place(&["work", "w"]))])]), overlap);
    let unresolved = "extension --config requires a local configuration path";
    assert_eq!(message(vec![resolved(&["opt", "x"], &["--config"], vec![])]), unresolved);
    assert_eq!(message(vec![resolved(&["opt", "x"], &["--config", "c"], vec![None])]), unresolved);
    let mut misplaced = resolved(&["opt", "x"], &[], vec![]);
    misplaced.package = place(&["elsewhere"]);
    assert_eq!(message(vec![misplaced]), "extension executable has no parent");
}

#[test]
fn runs_follow_their_listing() {
    let r = registry();
    let parsed = |list: &[&str]| parse_harness(&words(list)).ok().unwrap().unwrap();
    let run = parsed(&["run", "--config", "c", "--cwd", "d", "--prompt", "p", "--visibility", "client", "--project", "1"]);
    let s = choose_harness(&r, &run).ok().unwrap();
    let cwd = place(&["work"]);
    let time = Budget { cancelled: false, left: Some(Span::from_secs(5)) };
    let next = |args, seen: &Seen, budget: &Budget| next_step(&r, args, &s, &cwd, "p", seen, budget);
    assert!(matches!(next(&run, &Seen::Nothing, &time), Ok(CliStep::ListProjects(_))));
    let other = Seen::Listed(vec![project("2", &["work"])]);
    assert!(matches!(next(&run, &other, &time), Err(HarnessError::UnknownProject { .. })));
    let listed = Seen::Listed(vec![project("1", &["work"])]);
    match next(&run, &listed, &time) {
        Ok(CliStep::Run(request)) => assert!(matches!(
            &request.placement,
            ConversationPlacement::ExistingProject { harness_id, project_id } if harness_id == "a" && project_id == "1"
        )),
        _ => panic!("no run"),
    }
    let late = Budget { cancelled: false, left: None };
    assert!(matches!(next(&run, &listed, &late), Err(HarnessError::DeadlineExceeded { .. })));
    let stopped = Budget { cancelled: true, left: Some(Span::from_secs(5)) };
    assert!(matches!(next(&run, &Seen::Nothing, &stopped), Err(HarnessError::Interrupted { .. })));
    let free = parsed(&["run", "--config", "c", "--cwd", "d", "--prompt", "p", "--visibility", "hidden", "--no-project"]);
    match next(&free, &Seen::Nothing, &time) {
        Ok(CliStep::Run(request)) => assert!(matches!(request.placement, ConversationPlacement::NoNativeProject)),
        _ => panic!("no run"),
    }
    let list = parsed(&["projects", "--config", "c", "--cwd", "d"]);
    assert!(matches!(next(&list, &Seen::Nothing, &time), Ok(CliStep::ListProjects(_))));
    match next(&list, &listed, &late) {
        Ok(CliStep::Report(value)) => assert_eq!(value.get("status").unwrap().render(), "\"ok\""),
        _ => panic!("no report"),
    }
}

#[test]
fn servers_expose_what_they_read_and_run() {
    let mut server = ServerPlaces {
        configurations: vec![place(&["etc", "s.json"])],
        data_dir: place(&["data"]),
        token_file: place(&["token"]),
        monitors_config: Some(place(&["etc", "m.json"])),
        extensions_config: Some(place(&["etc", "e.json"])),
        packages: vec![place(&["opt", "p"])],
        programs: vec![
            Launched { program: place(&["bin", "a"]), files: vec![place(&["bin", "a.cfg"])] },
            Launched { program: place(&["bin", "b"]), files: vec![] },
        ],
    };
    let own = vec![place(&["etc", "r.json"])];
    let shown = |list: Vec<Location>| list.into_iter().map(|l| l.text).collect::<Vec<_>>();
    let all = [
        place(&["etc", "r.json"]),
        place(&["etc", "s.json"]),
        place(&["data"]),
        place(&["token"]),
        place(&["etc", "m.json"]),
        place(&["etc", "e.json"]),
        place(&["opt", "p"]),
        place(&["bin", "a"]),
        place(&["bin", "a.cfg"]),
        place(&["bin", "b"]),
    ];
    assert_eq!(shown(server.exposed(&own)), all.iter().map(|l| l.text.clone()).collect::<Vec<_>>());
    server.monitors_config = None;
    server.extensions_config = None;
    server.programs = vec![];
    assert_eq!(server.exposed(&own).len(), 4);
}

#[test]
fn active_configurations_are_shown() {
    let c = config(ReviewerConfig::Harness { harness_id: "judge".into() });
    let shown = active_configuration(&c, &Some("r.json".into()));
    assert_eq!(shown.name, "当前服务配置");
    assert_eq!(shown.repair_config.as_deref(), Some("r.json"));
    assert_eq!(shown.reviewer, "Harness · judge");
    assert_eq!((shown.target_id.as_str(), shown.data_directory.as_str()), ("x", "C:\\data"));
    assert_eq!(shown.reviewer_directory, "C:\\judge");
    assert!(shown.reviewer_workspace.is_none());
    assert_eq!((shown.timeout_seconds, shown.max_tool_calls), (60, 2));
}

#[test]
fn approvals_are_shown_whole() {
    let mut s = session(ReviewerConfig::Human);
    let tools = RepairTools::new("task".into(), "please".into());
    let edit = TextEdit { path: "a.txt".into(), expected: "old".into(), replacement: "new".into() };
    let name = repair_tools()[1].name.clone();
    let operation = tools.propose(&s.config, &disk(&["work"]), &tool_call(&name), &edit);
    let step = s.store.request(operation, policy(ReviewerConfig::Human), 1000);
    let id = install(&mut s, step);
    let rights = Rights { decide: true, apply: true, reconcile: true };
    let shown = approval_detail(&s.store.get(&id).unwrap(), rights, None, 1000000);
    assert_eq!((shown.request_id.as_str(), shown.state.as_str()), (id.as_str(), "pending"));
    assert_eq!(shown.created_at, 1000000);
    assert_eq!(shown.allowed_actions, vec!["approve", "deny", "revoke"]);
    assert_eq!(shown.path.render(), "\"a.txt\"");
    assert_eq!(shown.user_request.render(), "\"please\"");
    assert_eq!(shown.execution_context.call_id.render(), "\"c1\"");
    assert_eq!(shown.policy.reviewer, "人工");
    assert!(shown.assessment.is_none() && shown.receipt.is_none() && shown.detail);
    let step = match s.decide(&id, ApprovalDecision::Approve, "ok".into(), 1001) {
        Ok(step) => Ok(step),
        Err(e) => panic!("{}", e.message()),
    };
    install(&mut s, step);
    let raw = json("{\"content_verified\":true}");
    let shown = approval_detail(&s.store.get(&id).unwrap(), rights, Some(raw), 1001000);
    assert_eq!(shown.allowed_actions, vec!["revoke", "apply"]);
    let given = shown.assessment.unwrap();
    assert_eq!((given.decision, given.source.as_str(), given.reason.as_str()), (ApprovalDecision::Approve, "human", "ok"));
    assert!(given.session_id.is_none());
    assert_eq!(shown.receipt.unwrap().get("contentVerified").unwrap().render(), "true");
}

#[test]
fn hosts_have_what_their_modules_need() {
    let empty = HostConfig::default();
    assert_eq!(empty.modules().len(), 1);
    let watching = HostConfig {
        harnesses: None,
        extensions: None,
        monitoring: Some(MonitoringHostConfig {
            config: MonitorsConfig { schema_version: 1, monitors: vec![], discoveries: vec![] },
            data_dir: "/d".into(),
        }),
    }
    .settled();
    let modules = watching.modules();
    assert_eq!(modules.len(), 3);
    for m in &modules {
        for need in &m.required {
            assert!(modules.iter().any(|p| p.provides.iter().any(|k| k.equals(need))));
        }
    }
    assert!(matches!(startup_error(true, Some(HarnessError::NoDefaultHarness), "x".into()), HostError::Harness(_)));
    assert_eq!(
        startup_error(false, Some(HarnessError::NoDefaultHarness), "x".into()).message(),
        "host lifecycle: x"
    );
    assert!(close(None, None, None).is_ok());
    assert_eq!(close(Some("m".into()), None, Some("e".into())).unwrap_err().message(), "host lifecycle: m");
    assert!(drain_expired().message().ends_with("cleanup remains pending"));
    let nothing = RuntimeSnapshot {
        active_instances: 0,
        pending_cleanup_instances: 0,
        services: 0,
        subscriptions: 0,
        disposers: 0,
        background_tasks: 0,
    };
    assert!(shutdown_result(true, "", &nothing).is_ok());
    assert!(shutdown_result(false, "x", &nothing).is_err());
    assert!(shutdown_result(true, "", &RuntimeSnapshot { services: 1, ..nothing }).is_err());
    assert!(matches!(host_error(drain_expired()), HarnessError::Unavailable { .. }));
}

#[test]
fn reports_select_and_show() {
    let all = HarnessRegistryConfig {
        schema_version: 1,
        default_harness: Some("a".into()),
        harnesses: vec![definition("a"), definition("b")],
    };
    let one = select_configuration(&all, Some("b")).ok().unwrap();
    assert_eq!((one.harnesses.len(), one.default_harness.as_deref()), (1, Some("b")));
    assert!(matches!(select_configuration(&all, Some("z")), Err(HarnessError::UnknownHarness(_))));
    assert_eq!(single_configuration(&definition("b")).default_harness.as_deref(), Some("b"));
    let (shown, ok) =
        inspect_configuration(&all, &vec![Assembly::Built(vec![place(&["work"])]), Assembly::Failed(HarnessError::NoDefaultHarness)]);
    assert!(!ok);
    assert_eq!(shown.get("status").unwrap().render(), "\"unavailable\"");
    let c = config(ReviewerConfig::Harness { harness_id: "b".into() });
    assert_eq!(select_repair(&all, &c).ok().unwrap().harnesses.len(), 2);
    let c = config(ReviewerConfig::Harness { harness_id: "z".into() });
    assert_eq!(
        select_repair(&all, &c).err().unwrap().message(),
        "selected Harness z missing or disabled"
    );
    assert!(needs_target("run") && !needs_target("inspect"));
    assert!(needs_store_only("inspect") && !needs_store_only("apply"));
    let (report, code) = repair_error(&WorkflowError::OutcomeUnknown { request_id: "r".into(), message: "m".into() });
    assert_eq!((report.get("status").unwrap().render().as_str(), code), ("\"unknown\"", 3));
    assert_eq!(repair_error(&WorkflowError::Invalid("x".into())).1, 1);
    assert_eq!(inspected_record(json("{}")).render(), "{\"record\":{},\"status\":\"ok\"}");
    assert_eq!(inspected_records(vec![json("1")]).render(), "{\"records\":[1],\"status\":\"ok\"}");
    assert_eq!(decided(json("{}")).get("executed").unwrap().render(), "false");
    assert_eq!(applied(ApprovalState::Unknown, json("{}")).get("status").unwrap().render(), "\"unknown\"");
    assert_eq!(reconciled_report(json("{}")).get("write_repeated").unwrap().render(), "false");
    assert_eq!(
        failure_json(Some("c"), "m", None).render(),
        "{\"auto_retry\":false,\"category\":\"c\",\"message\":\"m\",\"status\":\"failed\"}"
    );
    assert!(matches!(ConversationPlacement::NoNativeProject.project_id(), None));
}
