use recuvora::json::{Json, Real};
use recuvora::monitors::{MonitorDefinition, MonitorError, MonitorRule, RuleOperator};
use recuvora::protocol::ExtensionError;
use recuvora::recovery::approval::{ApprovalError, ApprovalState, ReviewerConfig};
use recuvora::recovery::engine::{Simulation, TaskState};
use recuvora::recovery::incidents::{IncidentError, IncidentKind, IncidentRecord, IncidentStatus, SignalCondition};
use recuvora::recovery::workflow::WorkflowError;
use recuvora::server::access::{authenticate, check_origin, supplied_token, transport_refusal};
use recuvora::server::console::{Ask, Console, Ending, Outcome};
use recuvora::server::details::repair_view;
use recuvora::server::history::{approval_counts, operation_summary, related, simulation_summary};
use recuvora::server::journal::{check_fields, check_line, Journal, Operation};
use recuvora::server::logs::cursors::Cursors;
use recuvora::server::logs::records::{check_advance, project};
use recuvora::server::logs::{
    check_read, read_error, read_params, source_for, validate_sources, Binding, LogResultMapping, LogSourceConfig,
};
use recuvora::server::monitoring::{
    check_acknowledgement, check_source, detail, incidents, monitor_error, repair_source_incident, summary, IncidentQuery,
};
use recuvora::server::pages;
use recuvora::server::paging::{metadata, page, ListQuery};
use recuvora::server::plugins::{
    bounded_error, check_view, check_view_size, valid_pointer, FieldFormat, FieldSource, MonitoringView, ViewField, ViewSection,
};
use recuvora::server::repairs::{incident_tasks, repair_summaries, response, ApprovalProjection};
use recuvora::server::requests::{
    action, check_reason, check_repair, logs, permission_for, simulation, simulation_status, ApprovalAction, LogsQuery,
};
use recuvora::server::views::{allowed_actions, approver, capability, receipt, Rights};
use recuvora::server::{
    answer, check_config_size, check_external, check_outside, known_permission, read_token, valid_id, ApiError, ServerConfig, Step,
};
use recuvora::paths::{Location, Part};
use recuvora::table::Table;

fn convert(value: &serde_json::Value) -> Json {
    match value {
        serde_json::Value::Null => Json::Null,
        serde_json::Value::Bool(b) => Json::Bool(*b),
        serde_json::Value::Number(n) => {
            if let Some(u) = n.as_u64() {
                Json::Unsigned(u)
            } else if let Some(i) = n.as_i64() {
                Json::Negative(i)
            } else {
                let f = n.as_f64().unwrap();
                let bits = f.to_bits();
                let raw = ((bits >> 52) & 0x7ff) as i16;
                let fraction = (bits & 0xf_ffff_ffff_ffff) as i64;
                let (m, e) = if raw == 0 { (fraction, -1074) } else { (fraction | (1 << 52), raw - 1075) };
                Json::Real(Real { text: n.to_string(), mantissa: if f < 0.0 { -m } else { m }, exponent: e })
            }
        }
        serde_json::Value::String(s) => Json::Text(s.clone()),
        serde_json::Value::Array(list) => Json::Array(list.iter().map(convert).collect()),
        serde_json::Value::Object(map) => Json::Object(map.iter().map(|(k, v)| (k.clone(), convert(v))).collect()),
    }
}

fn json(text: &str) -> Json {
    convert(&serde_json::from_str(text).unwrap())
}

fn config() -> ServerConfig {
    ServerConfig {
        schema_version: 1,
        listen: "127.0.0.1:1".into(),
        token_file: "/t".into(),
        operator: "op".into(),
        permissions: vec!["logs.read".into()],
        allowed_origins: vec!["http://x".into()],
        data_dir: "/d".into(),
        harness_config: None,
        extensions_config: None,
        repair_config: None,
        monitors_config: None,
        log_sources: vec![],
    }
}

#[test]
fn servers_listen_locally() {
    assert!(config().check(true).is_ok());
    let refused = "invalid_request: invalid schema, operator, permissions, origin or non-loopback listener";
    assert_eq!(config().check(false).unwrap_err().message(), refused);
    let mut c = config();
    c.permissions.push("root".into());
    assert_eq!(c.check(true).unwrap_err().message(), refused);
    for origin in ["http://*", "http://x/", &"x".repeat(257)] {
        let mut c = config();
        c.allowed_origins = vec![origin.to_string()];
        assert!(c.check(true).is_err(), "{origin}");
    }
    let mut c = config();
    c.operator = "a b".into();
    assert!(c.check(true).is_err());
    assert!(valid_id("a:b-c_d.e") && !valid_id("a/b") && !valid_id(""));
    assert!(known_permission("incident.acknowledge") && !known_permission("incident.write"));
}

#[test]
fn paths_and_tokens_are_checked() {
    assert!(check_external(true, &vec![Step::Plain]).is_ok());
    assert_eq!(
        check_external(false, &vec![]).unwrap_err().message(),
        "invalid_request: absolute external path required"
    );
    assert_eq!(
        check_external(true, &vec![Step::Plain, Step::Symlink, Step::Reparse]).unwrap_err().message(),
        "invalid_request: runtime path contains symlink"
    );
    assert!(check_external(true, &vec![Step::Reparse]).is_err());
    let at = |n: &str| Location { text: n.into(), parts: vec![Part::Root, Part::Name(n.into())] };
    assert!(check_outside(&at("src"), Some(&at("src"))).is_err());
    assert!(check_outside(&at("x"), Some(&at("src"))).is_ok());
    assert!(check_outside(&at("src"), None).is_ok());
    assert!(check_config_size(65536).is_ok());
    assert!(check_config_size(65537).is_err());
    let mut bytes = vec![b'k'; 32];
    bytes.extend(b"\r\n");
    assert_eq!(read_token(bytes).ok().unwrap(), vec![b'k'; 32]);
    assert!(read_token(vec![b'k'; 31]).is_err());
    assert!(read_token(vec![b'k'; 257]).is_err());
    assert!(read_token(vec![b' '; 40]).is_err());
}

#[test]
fn only_the_token_authenticates() {
    let secret = b"secret".to_vec();
    assert!(authenticate(&b"secret".to_vec(), &secret).is_ok());
    for wrong in ["", "secreT", "secret1", "secre"] {
        let e = authenticate(&wrong.as_bytes().to_vec(), &secret).unwrap_err();
        assert_eq!((e.status, e.code), (401, "unauthorized"));
    }
    assert_eq!(supplied_token(&Some("Bearer abc".into())), "abc");
    assert_eq!(supplied_token(&Some("Basic abc".into())), "");
    assert_eq!(supplied_token(&None), "");
    let allowed = vec!["http://ok".to_string()];
    assert!(check_origin(&None, &None, &allowed).is_ok());
    assert!(check_origin(&Some("http://ok".into()), &None, &allowed).is_ok());
    assert!(check_origin(&Some("https://h".into()), &Some("h".into()), &vec![]).is_ok());
    assert_eq!(check_origin(&Some("http://evil".into()), &Some("h".into()), &allowed).unwrap_err().status, 403);
    assert!(transport_refusal(404, false).is_some());
    assert!(transport_refusal(404, true).is_none());
    assert!(transport_refusal(200, false).is_none());
}

#[test]
fn failures_are_answered_by_kind() {
    let status = |e: WorkflowError| answer(&e).status;
    assert_eq!(status(WorkflowError::Approval(ApprovalError::Conflict)), 409);
    assert_eq!(status(WorkflowError::Approval(ApprovalError::NotFound)), 404);
    assert_eq!(status(WorkflowError::Approval(ApprovalError::Capacity)), 400);
    let unsure = answer(&WorkflowError::OutcomeUnknown { request_id: "r".into(), message: "m".into() });
    assert_eq!((unsure.status, unsure.code), (409, "unknown"));
    assert_eq!(monitor_error(&MonitorError::Incident(IncidentError::NotFound("x".into()))).status, 404);
    assert_eq!(monitor_error(&MonitorError::Stopped).status, 503);
    assert_eq!(
        ApiError::missing("gone").body().render(),
        "{\"auto_retry\":false,\"error\":{\"code\":\"not_found\",\"message\":\"gone\"}}"
    );
}

fn console() -> Console {
    Console::new(vec!["logs.read".into(), "operation.cancel".into()], Journal::open(0).ok().unwrap())
}

fn begin(c: &mut Console, id: &str, kind: &str, context: &str) {
    let o = match c.begin(id.into(), kind, json(context), 10) {
        Ok(o) => o,
        Err(e) => panic!("{}", e.message()),
    };
    c.accept(o);
}

#[test]
fn operations_are_accepted_once() {
    let mut c = console();
    assert_eq!(c.begin("a b".into(), "harness", json("{}"), 1).err().unwrap().status, 400);
    begin(&mut c, "one", "repair", "{\"taskId\":\"t\"}");
    assert_eq!(c.begin("one".into(), "repair", json("{}"), 1).err().unwrap().status, 409);
    assert_eq!(
        c.begin("two".into(), "repair", json("{\"taskId\":\"t\"}"), 1).err().unwrap().message,
        "repair task_id already accepted; inspect its existing repair instead of replaying it"
    );
    assert!(c.begin("two".into(), "harness", json("{\"taskId\":\"t\"}"), 1).is_ok());
    for i in 0..7 {
        begin(&mut c, &format!("n{i}"), "harness", "{}");
    }
    assert_eq!(c.begin("more".into(), "harness", json("{}"), 1).err().unwrap().status, 429);
    assert!(c.cancel("one").is_ok());
    assert_eq!(c.cancel("nothing").err().unwrap().status, 409);
    c.drain();
    assert!(c.begin("late".into(), "harness", json("{}"), 1).is_err());
    assert_eq!(c.require("logs.read").unwrap_err().status, 503);
    assert!(!c.idle());
    assert!(c.shut_down().is_err());
}

#[test]
fn permissions_are_required() {
    let c = console();
    assert!(c.require("logs.read").is_ok());
    let e = c.require("harness.run").unwrap_err();
    assert_eq!((e.status, e.code), (403, "forbidden"));
}

#[test]
fn outcomes_are_recorded_once() {
    let mut c = console();
    begin(&mut c, "one", "harness", "{}");
    match c.finish("one", Outcome::Value(json("{\"status\":\"failed\"}")), 20) {
        Ending::Write(o) => {
            assert_eq!(o.status, "failed");
            c.finished(o, true);
        }
        _ => panic!("expected a line"),
    }
    assert!(c.idle());
    assert!(c.shut_down().is_ok());
    // A second end cannot follow the first.
    assert!(matches!(c.finish("one", Outcome::Value(json("{}")), 30), Ending::Lost));
    assert_eq!(c.journal.records.get("one").unwrap().status, "unknown");
    assert!(matches!(c.finish("nothing", Outcome::Failed("x".into()), 30), Ending::Unheard));
    let mut c = console();
    begin(&mut c, "one", "harness", "{}");
    match c.finish("one", Outcome::Failed("panic".into()), 20) {
        Ending::Write(o) => {
            assert_eq!((o.status.as_str(), o.error.as_deref()), ("unknown", Some("panic")));
            c.finished(o, false);
        }
        _ => panic!("expected a line"),
    }
    let lost = c.journal.records.get("one").unwrap();
    assert_eq!(lost.error.as_deref(), Some("completion could not be persisted; do not retry"));
    assert!(c.begin("two".into(), "harness", json("{}"), 30).is_err());
}

fn operation(id: &str, kind: &str, status: &str, at: u64, context: &str, result: Option<&str>) -> Operation {
    Operation {
        id: id.into(),
        kind: kind.into(),
        status: status.into(),
        updated_at: at,
        result: result.map(json),
        error: None,
        auto_retry: false,
        context: json(context),
    }
}

#[test]
fn journals_replay_what_they_wrote() {
    let o = operation("a", "harness", "running", 5, "{}", None);
    let line = o.line();
    assert_eq!(
        line,
        "{\"id\":\"a\",\"kind\":\"harness\",\"status\":\"running\",\"updatedAt\":5,\"result\":null,\"error\":null,\"auto_retry\":false,\"context\":{}}\n"
    );
    let raw = json(line.trim_end());
    assert!(check_fields(&raw).is_ok());
    assert!(check_fields(&json("{}")).is_err());
    assert!(check_fields(&json("[]")).is_err());
    assert!(check_line(10, true).is_ok());
    assert!(check_line(10, false).is_err());
    let mut j = Journal::open(100).ok().unwrap();
    j.replay(o).ok().unwrap();
    assert!(j.replay(operation("a", "harness", "running", 6, "{}", None)).is_err());
    assert!(j.replay(operation("b", "harness", "completed", 6, "{}", Some("{}"))).is_err());
    assert!(j.replay(operation("a", "other", "completed", 6, "{}", Some("{}"))).is_err());
    assert!(j.replay(operation("a", "harness", "completed", 6, "{}", None)).is_err());
    assert!(j.replay(operation("a", "harness", "completed", 6, "{}", Some("{\"status\":\"failed\"}"))).is_err());
    let cut = j.interrupted(9);
    assert_eq!(cut.len(), 1);
    assert_eq!(cut[0].status, "unknown");
    assert!(j.reserve(&cut[0]).is_ok());
    j.commit(cut.into_iter().next().unwrap());
    assert_eq!(j.events.len(), 2);
    assert!(j.interrupted(10).is_empty());
    assert!(Journal::open(64 * 1024 * 1024 + 1).is_err());
}

fn item(id: &str, state: &str) -> Json {
    json(&format!("{{\"id\":\"{id}\",\"state\":\"{state}\",\"taskId\":\"t\"}}"))
}

fn ids(page: &Json) -> Vec<String> {
    match page.get("items") {
        Some(Json::Array(list)) => list.iter().map(|v| v.get("id").unwrap().render()).collect(),
        _ => panic!("no items"),
    }
}

#[test]
fn pages_cover_every_item_once() {
    let all = || ["b", "e", "a", "d", "c"].iter().map(|i| item(i, "pending")).collect::<Vec<_>>();
    let mut seen = Vec::new();
    let mut cursor: Option<String> = None;
    loop {
        let query = ListQuery { cursor: cursor.clone(), limit: Some(2), ..ListQuery::default() };
        let shown = page(all(), "id", &query).ok().unwrap();
        assert_eq!(shown.get("total").unwrap().render(), "5");
        seen.extend(ids(&shown));
        match shown.get("next_cursor") {
            Some(Json::Text(next)) => cursor = Some(next.clone()),
            _ => break,
        }
    }
    assert_eq!(seen, vec!["\"e\"", "\"d\"", "\"c\"", "\"b\"", "\"a\""]);
}

#[test]
fn queries_select() {
    let all = || vec![item("a", "pending"), item("b", "executed")];
    let by = |state: &str| ListQuery { state: Some(state.into()), ..ListQuery::default() };
    assert_eq!(ids(&page(all(), "id", &by("attention")).ok().unwrap()), vec!["\"a\""]);
    assert_eq!(ids(&page(all(), "id", &by("executed")).ok().unwrap()), vec!["\"b\""]);
    assert_eq!(ids(&page(all(), "id", &by("all")).ok().unwrap()).len(), 2);
    let text = ListQuery { query: Some("EXEC".into()), ..ListQuery::default() };
    assert_eq!(ids(&page(all(), "id", &text).ok().unwrap()), vec!["\"b\""]);
    let task = ListQuery { task_id: Some("other".into()), ..ListQuery::default() };
    assert!(ids(&page(all(), "id", &task).ok().unwrap()).is_empty());
    let limit = ListQuery { limit: Some(101), ..ListQuery::default() };
    assert_eq!(page(all(), "id", &limit).err().unwrap().message, "limit must be 1..100");
    let long = ListQuery { query: Some("x".repeat(257)), ..ListQuery::default() };
    assert_eq!(page(all(), "id", &long).err().unwrap().message, "invalid bounded history query");
    let first = page(all(), "id", &ListQuery { limit: Some(1), ..ListQuery::default() }).ok().unwrap();
    assert_eq!(
        metadata(&first).render(),
        "{\"limit\":1,\"next_cursor\":\"b\",\"order\":\"id_desc\",\"total\":2}"
    );
}

#[test]
fn lists_show_bounded_summaries() {
    let o = operation("a", "simulation", "completed", 5, "{\"taskId\":\"t\",\"secret\":1}", Some("{\"task\":{\"state\":\"TimedOut\",\"revision\":3}}"));
    let shown = operation_summary(&o);
    assert_eq!(shown.get("context").unwrap().render(), "{\"taskId\":\"t\"}");
    assert!(shown.get("result").is_none());
    let simulated = simulation_summary(&o);
    assert_eq!(simulated.get("state").unwrap().render(), "\"timed_out\"");
    assert_eq!(simulated.get("revision").unwrap().render(), "3");
    assert_eq!(
        approval_counts(&vec![ApprovalState::Pending, ApprovalState::Denied, ApprovalState::Pending]).render(),
        "{\"denied\":1,\"pending\":2}"
    );
    let found = related(&vec![item("a", "x"), item("b", "x"), item("c", "x")], &vec!["a".into(), "c".into()]);
    assert_eq!(ids(&found), vec!["\"c\"", "\"a\""]);
}

fn table(list: Vec<Operation>) -> Table<Operation> {
    let mut t = Table::new();
    for o in list {
        t.insert(o.id.clone(), o);
    }
    t
}

#[test]
fn repairs_are_summarized_conservatively() {
    let ops = table(vec![
        operation("1", "repair", "completed", 5, "{\"taskId\":\"t\",\"target\":\"x\"}", Some("{\"status\":\"waiting_human\",\"final_response\":\"r\"}")),
        operation("2", "repair", "unknown", 9, "{\"taskId\":\"u\",\"sourceIncident\":{\"id\":\"i\"}}", None),
        operation("3", "harness", "running", 9, "{\"taskId\":\"v\"}", None),
    ]);
    let records = |state| {
        vec![ApprovalProjection { task_id: "t".into(), target: json("\"x\""), state, updated_at: 1 }]
    };
    let shown = repair_summaries(&ops, &records(ApprovalState::Executed), &Some("x".into()));
    assert_eq!(shown.iter().map(|s| s.id.as_str()).collect::<Vec<_>>(), vec!["t", "u"]);
    assert_eq!(shown[0].status.render(), "\"completed\"");
    assert_eq!((shown[0].operation_count, shown[0].updated_at), (1, 1000));
    let listed = repair_view(&shown[0]);
    assert_eq!((listed.id.as_str(), listed.reviewer.as_str()), ("t", "可信审批服务"));
    assert_eq!((listed.operation_count, listed.updated_at), (1, 1000));
    assert!(!listed.business_verified && !listed.detail);
    // Whatever is uncertain is shown as unknown.
    assert_eq!(shown[1].status.render(), "\"unknown\"");
    let shown = repair_summaries(&ops, &records(ApprovalState::Unknown), &None);
    assert_eq!(shown[0].status.render(), "\"unknown\"");
    let shown = repair_summaries(&ops, &records(ApprovalState::Pending), &None);
    assert_eq!(shown[0].status.render(), "\"waiting_human\"");
    assert_eq!(response(&ops, "t").render(), "\"r\"");
    assert_eq!(incident_tasks(&ops, "i"), vec!["u"]);
}

fn monitor() -> MonitorDefinition {
    MonitorDefinition {
        id: "m".into(),
        target_id: "t".into(),
        source_id: "s".into(),
        view_role: None,
        extension_id: "p".into(),
        contract: "demo.health".into(),
        version: 1,
        method: "poll".into(),
        params: json("{\"host\":\"a\"}"),
        interval_ms: 1000,
        timeout_ms: 500,
        stale_after_ms: 5000,
        startup_grace_ms: 3000,
        rule: MonitorRule {
            pointer: "/up".into(),
            operator: RuleOperator::Eq,
            value: json("true"),
            failure_samples: 1,
            success_samples: 1,
        },
    }
}

fn source(id: &str) -> LogSourceConfig {
    LogSourceConfig {
        id: id.into(),
        extension_id: "p".into(),
        contract: "demo.logs".into(),
        version: 1,
        method: "read".into(),
        monitor_contract: "demo.health".into(),
        params: json("{\"fixed\":1}"),
        parameter_bindings: vec![Binding { name: "host".into(), pointer: "/host".into() }],
        cursor_parameter: "cursor".into(),
        limit_parameter: "limit".into(),
        timeout_ms: 5000,
        result: LogResultMapping::default(),
        error_levels: vec!["error".into()],
        error_events: vec!["crash".into()],
    }
}

#[test]
fn log_sources_are_unambiguous() {
    assert!(validate_sources(&vec![source("a")]).is_ok());
    assert!(validate_sources(&vec![source("a"), source("b")]).is_err());
    let mut s = source("a");
    s.contract = "recuvora.x".into();
    assert!(validate_sources(&vec![s]).is_err());
    let mut s = source("a");
    s.error_levels = vec!["error".into(), "ERROR".into()];
    assert!(validate_sources(&vec![s]).is_err());
    let mut s = source("a");
    s.parameter_bindings[0].name = "limit".into();
    assert!(validate_sources(&vec![s]).is_err());
    let mut s = source("a");
    s.result.entries = "entries".into();
    assert!(validate_sources(&vec![s]).is_err());
    let many: Vec<LogSourceConfig> = (0..17).map(|i| source(&format!("s{i}"))).collect();
    assert_eq!(validate_sources(&many).unwrap_err().message, "at most 16 log sources are allowed");
}

#[test]
fn trusted_parameters_stay() {
    let sources = vec![source("a")];
    let s = source_for(&sources, &monitor()).unwrap();
    let asked = read_params(s, &monitor().params, 7, &Some("c".into())).ok().unwrap();
    assert_eq!(asked.render(), "{\"cursor\":\"c\",\"fixed\":1,\"host\":\"a\",\"limit\":7}");
    assert!(read_params(s, &json("{}"), 7, &None).is_err());
    assert!(read_params(s, &json("{\"host\":[]}"), 7, &None).is_err());
    let mut other = monitor();
    other.contract = "demo.other".into();
    assert!(source_for(&sources, &other).is_none());
    assert!(check_read("m", 32).is_ok());
    assert!(check_read("m", 33).is_err());
    assert_eq!(read_error(&ExtensionError::Rejected("invalid_cursor".into()), true).code, "cursor_invalid");
    assert_eq!(read_error(&ExtensionError::Rejected("invalid_cursor".into()), false).code, "logs_read_failed");
}

#[test]
fn records_are_projected() {
    let s = source("a");
    let good = json("{\"entries\":[{\"id\":\"1\",\"level\":\"ERROR\",\"message\":\"m\"},{\"id\":\"2\",\"message\":\"n\",\"timestamp\":5}],\"next_cursor\":\"c\",\"has_more\":true}");
    let shown = project(&s, &good, 2).ok().unwrap();
    assert_eq!(ids(&shown), vec!["\"1\"", "\"2\""]);
    match shown.get("errors") {
        Some(Json::Array(list)) => assert_eq!(list.len(), 1),
        _ => panic!("no errors"),
    }
    assert!(check_advance(&shown, &Some("c".into())).is_err());
    assert!(check_advance(&shown, &Some("b".into())).is_ok());
    let refuse = |text: &str, limit: usize| project(&s, &json(text), limit).err().unwrap().message;
    assert_eq!(refuse("{}", 2), "provider log entries are missing");
    assert_eq!(refuse(&good.render(), 1), "provider exceeded requested log record limit");
    assert_eq!(
        refuse("{\"entries\":[{\"id\":\"1\",\"message\":\"m\"},{\"id\":\"1\",\"message\":\"m\"}]}", 2),
        "provider returned duplicate log IDs"
    );
    assert_eq!(refuse("{\"entries\":[{\"id\":\"1\"}]}", 2), "provider log message is missing");
    assert_eq!(refuse("{\"entries\":[]}", 2), "provider log has_more is missing");
    assert_eq!(
        refuse("{\"entries\":[],\"has_more\":true}", 2),
        "provider log continuation cursor is missing"
    );
    assert_eq!(
        refuse("{\"entries\":[{\"id\":\"1\",\"message\":\"m\",\"timestamp\":-1}]}", 2),
        "provider returned invalid log timestamp"
    );
}

#[test]
fn cursors_stay_with_their_source() {
    let mut c = Cursors::new();
    let handle = c.issue("m", "s", Some("p1"), 100).ok().unwrap().unwrap();
    assert_eq!(handle, "log-cursor-100-0");
    assert_eq!(c.issue("m", "s", Some("p1"), 101).ok().unwrap().unwrap(), handle);
    assert_eq!(c.resolve("m", "s", Some(&handle), 102).ok().unwrap().as_deref(), Some("p1"));
    assert!(c.resolve("m", "other", Some(&handle), 102).is_err());
    assert!(c.resolve("n", "s", Some(&handle), 102).is_err());
    assert!(c.resolve("m", "s", Some("unknown"), 102).is_err());
    assert!(c.resolve("m", "s", None, 102).ok().unwrap().is_none());
    assert!(c.resolve("m", "s", Some(&handle), 102 + 1800001).is_err());
    assert!(c.issue("m", "s", Some("a b"), 1).is_err());
    assert!(c.issue("m", "s", None, 1).ok().unwrap().is_none());
    for i in 0..300 {
        c.issue("m", "s", Some(&format!("q{i}")), 200 + i).ok().unwrap();
    }
    assert_eq!(c.entries.len(), 256);
    assert!(c.resolve("m", "s", Some(&handle), 600).is_err());
}

fn incident(id: &str, status: IncidentStatus) -> IncidentRecord {
    IncidentRecord {
        id: id.into(),
        revision: 2,
        monitor_id: "m".into(),
        target_id: "t".into(),
        rule_id: "health".into(),
        kind: IncidentKind::Target,
        status,
        condition: SignalCondition::Active,
        summary: "Down".into(),
        evidence: json("{\"payload\":1}"),
        first_seen: 1,
        last_seen: 2,
        resolved_at: None,
        acknowledgement: None,
        occurrences: 1,
    }
}

fn any() -> IncidentQuery {
    IncidentQuery { cursor: None, limit: None, status: None, target_id: None, monitor_id: None, kind: None, query: None }
}

#[test]
fn incidents_are_listed() {
    let all = || {
        vec![
            summary(&incident("a", IncidentStatus::Open)),
            summary(&incident("b", IncidentStatus::Resolved)),
            summary(&incident("c", IncidentStatus::Acknowledged)),
        ]
    };
    assert!(all()[0].get("evidence").is_none());
    let shown = incidents(all(), &any(), 9).ok().unwrap();
    assert_eq!(ids(&shown), vec!["\"c\"", "\"a\""]);
    assert_eq!(
        shown.get("counts").unwrap().render(),
        "{\"acknowledged\":1,\"active\":2,\"open\":1,\"resolved\":1,\"total\":3}"
    );
    let text = IncidentQuery { query: Some("DOWN".into()), status: Some("all".into()), ..any() };
    assert_eq!(ids(&incidents(all(), &text, 9).ok().unwrap()).len(), 3);
    let other = IncidentQuery { target_id: Some("zz".into()), ..any() };
    assert!(ids(&incidents(all(), &other, 9).ok().unwrap()).is_empty());
    let bad = IncidentQuery { status: Some("weird".into()), ..any() };
    assert!(incidents(all(), &bad, 9).is_err());
    let value = detail(json("{\"id\":\"a\",\"status\":\"open\"}"), true, json("null"));
    assert_eq!(value.get("allowed_actions").unwrap().render(), "[\"acknowledge\"]");
    let value = detail(json("{\"id\":\"a\",\"status\":\"open\"}"), false, json("null"));
    assert_eq!(value.get("allowed_actions").unwrap().render(), "[]");
    assert!(check_acknowledgement(1, "note").is_ok());
    assert!(check_acknowledgement(0, "note").is_err());
}

#[test]
fn repairs_are_bound_to_their_source() {
    assert!(!check_source(None, None).ok().unwrap());
    assert!(check_source(Some("i"), Some(1)).ok().unwrap());
    assert!(check_source(Some("i"), None).is_err());
    assert!(check_source(Some("i"), Some(0)).is_err());
    let r = incident("i", IncidentStatus::Open);
    let allowed = vec!["t".to_string()];
    let bound = repair_source_incident(Some(&r), 2, "t", &allowed, 9).ok().unwrap();
    assert_eq!(bound.get("captured_at").unwrap().render(), "9");
    assert_eq!(repair_source_incident(None, 2, "t", &allowed, 9).err().unwrap().status, 404);
    assert_eq!(repair_source_incident(Some(&r), 1, "t", &allowed, 9).err().unwrap().status, 409);
    assert_eq!(repair_source_incident(Some(&r), 2, "u", &allowed, 9).err().unwrap().status, 409);
}

fn view(fields: usize) -> MonitoringView {
    MonitoringView {
        schema_version: 1,
        title: "T".into(),
        summary: None,
        sections: vec![ViewSection {
            id: "s".into(),
            title: "S".into(),
            description: None,
            monitor_role: "r".into(),
            fields: (0..fields)
                .map(|i| ViewField {
                    id: format!("f{i}"),
                    label: "L".into(),
                    source: FieldSource::Monitor,
                    pointer: "/a".into(),
                    format: FieldFormat::Text,
                    unit: None,
                    empty: None,
                })
                .collect(),
        }],
    }
}

#[test]
fn plugin_views_are_bounded() {
    assert_eq!(check_view(&view(64)), None);
    assert_eq!(check_view(&view(65)), Some("monitoring view has more than 64 fields"));
    assert_eq!(check_view(&view(0)), Some("invalid or duplicate monitoring view section"));
    let mut twice = view(2);
    twice.sections[0].fields[1].id = "f0".into();
    assert_eq!(check_view(&twice), Some("invalid or duplicate monitoring view field"));
    let mut version = view(1);
    version.schema_version = 2;
    assert!(check_view(&version).is_some());
    assert!(valid_pointer("") && valid_pointer("/a/b") && !valid_pointer("a") && !valid_pointer("/~2"));
    assert!(!valid_pointer(&"/a".repeat(17)) && valid_pointer(&"/a".repeat(16)));
    assert_eq!(check_view_size(32768, false), None);
    assert!(check_view_size(32769, true).is_some());
    assert_eq!(bounded_error("a\0b"), "a\u{fffd}b");
    assert_eq!(bounded_error(&"x".repeat(600)).len(), 512);
}

#[test]
fn requests_are_checked() {
    assert!(check_repair("t", "p", false).is_ok());
    assert_eq!(check_repair("t", " ", false).unwrap_err().status, 400);
    assert_eq!(check_repair("t", "p", true).unwrap_err().status, 409);
    assert_eq!(action("apply"), Some(ApprovalAction::Apply));
    assert_eq!(action("fly"), None);
    assert_eq!(permission_for("apply"), "approval.apply");
    assert_eq!(permission_for("anything"), "approval.decide");
    assert!(check_reason("why").is_ok() && check_reason(" ").is_err());
    assert_eq!(simulation("hang", "t", "x", 5).ok().unwrap(), Simulation::Hang);
    assert_eq!(simulation("boom", "t", "x", 5).err().unwrap().message, "unknown closed simulation scenario");
    assert!(simulation("hang", "t", "x", 0).is_err());
    assert_eq!(simulation_status(TaskState::Unknown), "unknown");
    assert_eq!(simulation_status(TaskState::Failed), "completed");
}

#[test]
fn events_are_read_backwards() {
    let events: Vec<Operation> = (0..5).map(|i| operation(&format!("o{i}"), "harness", "running", i + 1, "{}", None)).collect();
    let all = |limit, cursor| LogsQuery {
        level: None,
        source: None,
        task_id: None,
        operation_id: None,
        query: None,
        cursor,
        limit,
    };
    let first = logs(&events, &all(Some(2), None));
    assert_eq!(ids(&first), vec!["\"event-4\"", "\"event-3\""]);
    assert_eq!(first.get("next_cursor").unwrap().render(), "3");
    let next = logs(&events, &all(None, Some(3)));
    assert_eq!(ids(&next).len(), 3);
    assert_eq!(next.get("next_cursor").unwrap().render(), "null");
    let none = LogsQuery { level: Some("error".into()), ..all(None, None) };
    assert!(ids(&logs(&events, &none)).is_empty());
    let text = LogsQuery { query: Some("harness run".into()), ..all(None, None) };
    assert_eq!(ids(&logs(&events, &text)).len(), 5);
}

#[test]
fn offered_actions_are_permitted() {
    let all = Rights { decide: true, apply: true, reconcile: true };
    let none = Rights { decide: false, apply: false, reconcile: false };
    assert_eq!(allowed_actions(all, ApprovalState::Pending, 10, 5000), vec!["approve", "deny", "revoke"]);
    assert_eq!(allowed_actions(all, ApprovalState::Pending, 5, 5000), vec!["revoke"]);
    assert_eq!(allowed_actions(all, ApprovalState::Approved, 10, 5000), vec!["revoke", "apply"]);
    assert_eq!(allowed_actions(all, ApprovalState::Unknown, 10, 5000), vec!["reconcile"]);
    assert!(allowed_actions(all, ApprovalState::Executed, 10, 5000).is_empty());
    assert!(allowed_actions(none, ApprovalState::Pending, 10, 5000).is_empty());
    assert_eq!(approver(&ReviewerConfig::Human), "人工");
    assert_eq!(approver(&ReviewerConfig::Harness { harness_id: "h".into() }), "Harness · h");
    assert_eq!(
        receipt(json("{\"content_verified\":true}")).render(),
        "{\"businessVerified\":false,\"contentVerified\":true,\"raw\":{\"content_verified\":true}}"
    );
    let shown = capability("simulation", "n", false, &vec!["simulation.run".into()], "l");
    assert_eq!(shown.get("state").unwrap().render(), "\"prototype\"");
    assert_eq!(shown.get("availability").unwrap().render(), "\"unconfigured\"");
}

fn texts(value: &Json, list: &str, key: &str) -> Vec<String> {
    match value.get(list) {
        Some(Json::Array(items)) => items
            .iter()
            .map(|i| match i.get(key) {
                Some(Json::Text(t)) => t.clone(),
                _ => String::new(),
            })
            .collect(),
        _ => vec![],
    }
}

#[test]
fn histories_are_paged() {
    let all = table(vec![
        operation("a", "simulation", "completed", 1, r#"{"taskId":"t","target":"x","scenario":"fail"}"#, None),
        operation("b", "repair", "running", 2, r#"{"taskId":"u"}"#, None),
        operation("c", "simulation", "unknown", 3, r#"{"taskId":"v"}"#, None),
    ]);
    let listed = pages::operation_page(&all, &ListQuery::default()).unwrap();
    assert_eq!(texts(&listed, "items", "id"), ["c", "b", "a"]);
    assert_eq!(texts(&listed, "items", "kind"), ["simulation", "repair", "simulation"]);
    let simulated = pages::simulation_page(&all, &ListQuery::default()).unwrap();
    assert_eq!(texts(&simulated, "items", "id"), ["c", "a"]);
    assert_eq!(texts(&simulated, "items", "state"), ["unknown", "completed"]);
    let none = pages::approval_page(&vec![], &ListQuery { limit: Some(0), ..ListQuery::default() });
    assert_eq!(none.err().unwrap().message(), "invalid_request: limit must be 1..100");
    let empty = pages::approval_page(&vec![], &ListQuery::default()).unwrap();
    assert_eq!(empty.render(), r#"{"items":[],"limit":25,"next_cursor":null,"order":"id_desc","total":0}"#);
}

#[test]
fn lists_tell_no_observed_value() {
    let view = json(r#"{"id":"m","last_value":{"secret":1},"health":"healthy"}"#);
    let shown = pages::listed_monitor(view);
    assert_eq!(shown.render(), r#"{"detail":false,"health":"healthy","id":"m"}"#);
    assert_eq!(pages::listed_monitor(Json::Null).render(), "null");
}

#[test]
fn monitoring_is_shown_at_one_moment() {
    let none = pages::unwatched(vec![], json("{}"));
    assert_eq!(
        none.render(),
        r#"{"configured":false,"counts":{},"discoveries":[],"monitors":[],"plugins":[],"runtime_error":null}"#
    );
    assert_eq!(
        pages::monitor_list(&none).render(),
        r#"{"configured":false,"counts":{},"discoveries":[],"items":[],"plugins":[],"running":null,"runtime_error":null}"#
    );
    let some = pages::watched(
        vec![json(r#"{"id":"m"}"#)],
        vec![],
        vec![json("1")],
        &Some("stopped".to_string()),
        true,
        json(r#"{"monitors":1}"#),
    );
    assert_eq!(
        pages::monitor_list(&some).render(),
        r#"{"configured":true,"counts":{"monitors":1},"discoveries":[],"items":[{"id":"m"}],"plugins":[1],"running":true,"runtime_error":"stopped"}"#
    );
    let plugin = pages::plugin_page(json(r#"{"id":"p"}"#), "ready", &None, json("{}"), vec![], vec![], 9);
    assert_eq!(
        plugin.render(),
        r#"{"auto_retry":false,"discoveries":[],"monitors":[],"plugin":{"id":"p"},"read_at":9,"view":{},"view_error":null,"view_status":"ready"}"#
    );
}

#[test]
fn single_answers_are_dressed() {
    assert_eq!(pages::projects_page(vec![], "w").render(), r#"{"projects":[],"workspace_id":"w"}"#);
    assert_eq!(pages::queried(json("[1]")).render(), r#"{"auto_retry":false,"result":[1]}"#);
    assert_eq!(pages::simulated(TaskState::Canceled, Json::Null).render(), r#"{"status":"canceled","task":null}"#);
    assert_eq!(pages::simulated(TaskState::Failed, json("2")).render(), r#"{"status":"completed","task":2}"#);
}

#[test]
fn the_first_page_joins_its_parts() {
    let capabilities = pages::capabilities(true, false, true, false);
    let listed = json(r#"{"items":[1],"next_cursor":"c","total":4,"limit":25}"#);
    let parts = pages::Parts {
        capabilities,
        harnesses: vec![],
        repairs: listed.copy(),
        approvals: json(r#"{"items":[2]}"#),
        operations: json(r#"{"items":[3]}"#),
        simulations: json(r#"{"items":[4]}"#),
        active: Json::Null,
        extensions: vec![],
        monitoring: Json::Null,
        approval_counts: json(r#"{"pending":1}"#),
    };
    let first = pages::bootstrap("op", &vec!["logs.read".to_string()], 7, parts);
    assert_eq!(
        first.get("runtime").unwrap().render(),
        r#"{"operator":"op","permissions":["logs.read"],"status":"connected","updatedAt":7}"#
    );
    assert_eq!(
        texts(&first, "capabilities", "id"),
        ["monitoring", "harness", "text-repair", "simulation", "logs", "external-plugins"]
    );
    assert_eq!(
        texts(&first, "capabilities", "availability"),
        ["available", "unconfigured", "available", "available", "available", "unconfigured"]
    );
    assert_eq!(first.get("repairs").unwrap().render(), "[1]");
    assert_eq!(first.get("simulation_tasks").unwrap().render(), "[4]");
    assert_eq!(
        first.get("pages").unwrap().get("repairs").unwrap().render(),
        r#"{"limit":25,"next_cursor":"c","order":"id_desc","total":4}"#
    );
    assert_eq!(first.get("approval_counts").unwrap().render(), r#"{"pending":1}"#);
}

#[test]
fn copies_are_equal() {
    let value = json(r#"{"a":[1,-2,"x",null,true,1.5]}"#);
    assert_eq!(value.clone().render(), value.render());
}

#[test]
fn looking_does_not_allow_acting() {
    let looking = ["harness.projects", "logs.read", "extension.read", "monitor.read", "incident.read"];
    let mut c = Console::new(looking.iter().map(|p| p.to_string()).collect(), Journal::open(0).unwrap());
    let acting = [
        Ask::RunHarness,
        Ask::RunRepair,
        Ask::Decide,
        Ask::Apply,
        Ask::Reconcile,
        Ask::Simulate,
        Ask::Cancel,
        Ask::Acknowledge,
    ];
    for ask in acting {
        assert!(!c.may(ask));
        assert_eq!(c.allow(ask).err().unwrap().status, 403);
    }
    let reading = [
        Ask::Projects,
        Ask::ReadLogs,
        Ask::QueryExtension,
        Ask::ReadMonitors,
        Ask::ReadMonitorLogs,
        Ask::ReadIncidents,
    ];
    for ask in reading {
        assert!(c.may(ask) && c.allow(ask).is_ok());
    }
    c.drain();
    assert!(!c.may(Ask::ReadLogs));
    assert_eq!(c.allow(Ask::ReadLogs).err().unwrap().message(), "unavailable: host is shutting down");
}
