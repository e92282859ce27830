use recuvora::actions::{
    check_content, check_edit, check_target, path_within, read_bounded, receipt, validate_relative, verify_directory, verify_file,
    verify_handle_path, windows_components, ActionError, ScopedFiles, TextEdit,
};
use recuvora::framework::calls::{CallScope, DispatchError};
use recuvora::framework::order::start_order;
use recuvora::framework::runtime::{Hook, Runtime, Step};
use recuvora::framework::state::{Sent, SharedState};
use recuvora::framework::{FrameworkError, InstanceId, LifecycleOptions, ModuleMetadata, RuntimeSnapshot, ServiceKey};
use recuvora::json::{Json, Real};
use recuvora::nodes::registry::{check_callback, connect_order, dispatch_error, ExtensionRegistry};
use recuvora::nodes::{validate_metadata, AllowedMethod, ExtensionDefinition, ExtensionsConfig};
use recuvora::paths::{Location, Part, Volume};
use recuvora::protocol::frame::{outgoing, FrameReader};
use recuvora::protocol::schema::{validate_schema, validate_value};
use recuvora::protocol::session::{accept_ready, call_message, check_deadline, hello, Action, CallState};
use recuvora::protocol::{
    call_id, valid_id, CommandSpec, ContractDeclaration, ExtensionCall, ExtensionError, ExtensionKind, ExtensionMetadata, Message,
    MethodDeclaration, Outcome,
};
use recuvora::time::Span;

fn convert(value: &serde_json::Value) -> Json {
    match value {
        serde_json::Value::Null => Json::Null,
        serde_json::Value::Bool(b) => Json::Bool(*b),
        serde_json::Value::Number(n) => {
            if let Some(u) = n.as_u64() {
                Json::Unsigned(u)
            } else if let Some(i) = n.as_i64() {
                Json::Negative(i)
            } else {
                let f = n.as_f64().unwrap();
                let bits = f.to_bits();
                let raw = ((bits >> 52) & 0x7ff) as i16;
                let fraction = (bits & 0xf_ffff_ffff_ffff) as i64;
                let (m, e) = if raw == 0 { (fraction, -1074) } else { (fraction | (1 << 52), raw - 1075) };
                Json::Real(Real { text: n.to_string(), mantissa: if f < 0.0 { -m } else { m }, exponent: e })
            }
        }
        serde_json::Value::String(s) => Json::Text(s.clone()),
        serde_json::Value::Array(list) => Json::Array(list.iter().map(convert).collect()),
        serde_json::Value::Object(map) => Json::Object(map.iter().map(|(k, v)| (k.clone(), convert(v))).collect()),
    }
}

fn json(text: &str) -> Json {
    convert(&serde_json::from_str(text).unwrap())
}

fn id(name: &str) -> InstanceId {
    InstanceId::new(name.into())
}

fn key(name: &str) -> ServiceKey {
    ServiceKey::new(name.into(), 1, "host".into())
}

fn module(name: &str, provides: &[&str], needs: &[&str]) -> ModuleMetadata {
    let mut m = ModuleMetadata::new(id(name));
    for p in provides {
        m = m.provides(key(p));
    }
    for n in needs {
        m = m.require(key(n));
    }
    m
}

#[test]
fn modules_start_after_what_they_need() {
    let modules = vec![module("a", &[], &["x", "y"]), module("b", &["x"], &["y"]), module("c", &["y"], &[])];
    let order = start_order(&LifecycleOptions::default(), true, &modules).ok().unwrap();
    assert_eq!(order, vec![2, 1, 0]);
}

#[test]
fn bad_graphs_are_refused() {
    let options = LifecycleOptions::default();
    let cycle = vec![module("a", &["x"], &["y"]), module("b", &["y"], &["x"])];
    assert!(matches!(start_order(&options, true, &cycle), Err(FrameworkError::DependencyCycle(_))));
    let missing = vec![module("a", &[], &["x"])];
    assert!(matches!(start_order(&options, true, &missing), Err(FrameworkError::MissingDependency { .. })));
    let mut twice = Runtime::new(LifecycleOptions::default());
    twice.add(module("a", &[], &[])).ok().unwrap();
    assert!(matches!(twice.add(module("a", &[], &[])), Err(FrameworkError::DuplicateInstance(_))));
    let conflict = vec![module("a", &["x"], &[]), module("b", &["x"], &[])];
    assert!(matches!(start_order(&options, true, &conflict), Err(FrameworkError::ProviderConflict(_))));
    assert!(matches!(start_order(&options, false, &vec![]), Err(FrameworkError::InvalidConfiguration(_))));
}

fn started() -> Runtime {
    let mut r = Runtime::new(LifecycleOptions::default());
    r.add(module("a", &[], &["x"])).ok().unwrap();
    r.add(module("b", &["x"], &[])).ok().unwrap();
    for index in r.begin_start(true).ok().unwrap() {
        r.activate(index).ok().unwrap();
        if index == 1 {
            r.state.publish(&id("b"), &key("x")).ok().unwrap();
        }
        assert!(r.started(index, Hook::Finished).is_none());
    }
    r
}

#[test]
fn shutdown_goes_backwards_and_leaves_nothing() {
    let mut r = started();
    assert_eq!(r.snapshot().active_instances, 2);
    assert_eq!(r.snapshot().services, 1);
    let mut stopped = Vec::new();
    loop {
        match r.shutdown_step() {
            Step::Stop(i) => {
                stopped.push(i);
                assert_eq!(r.shutdown_step(), Step::Stop(i));
                r.stopped(i, Hook::Finished);
            }
            Step::Join(i) => r.joined(i, None),
            Step::Dispose(i, _) => r.disposed(i),
            Step::Remove(_) => r.removed(),
            Step::Done => break,
        }
    }
    assert_eq!(stopped, vec![0, 1]);
    assert!(r.report().is_clean());
    let left = r.snapshot();
    assert_eq!((left.active_instances, left.services, left.subscriptions), (0, 0, 0));
}

fn shut_down(r: &mut Runtime, hook: fn(usize) -> Hook, task: fn() -> Option<String>) -> Vec<Step> {
    let mut steps = Vec::new();
    loop {
        let step = r.shutdown_step();
        match step {
            Step::Stop(i) => r.stopped(i, hook(i)),
            Step::Join(i) => r.joined(i, task()),
            Step::Dispose(i, _) => r.disposed(i),
            Step::Remove(_) => r.removed(),
            Step::Done => return steps,
        }
        steps.push(step);
    }
}

#[test]
fn whole_shutdowns_stop_every_module_once() {
    let mut r = started();
    let options = LifecycleOptions::default();
    for _ in 0..3 {
        r.state.on_dispose(&options, &id("a")).ok().unwrap();
    }
    r.state.spawn(&options, &id("b"), true).ok().unwrap();
    r.state.spawn(&options, &id("b"), true).ok().unwrap();
    r.state.subscribe(&options, &id("b"), "topic", 1, &vec![]).ok().unwrap();
    assert_eq!(r.snapshot().background_tasks, 2);
    assert_eq!(r.snapshot().disposers, 3);
    let hook = |i: usize| if i == 0 { Hook::Failed("bad".into()) } else { Hook::TimedOut };
    let steps = shut_down(&mut r, hook, || Some("panic".into()));
    assert_eq!(
        steps,
        vec![
            Step::Stop(0),
            // The disposers, the one that was registered last first.
            Step::Dispose(0, 2),
            Step::Dispose(0, 1),
            Step::Dispose(0, 0),
            Step::Remove(0),
            Step::Stop(1),
            Step::Join(1),
            Step::Join(1),
            Step::Remove(1),
        ]
    );
    // One issue for each hook and each task.
    assert_eq!(r.report().issues.len(), 4);
    assert_eq!(r.snapshot(), RuntimeSnapshot::default());
    assert!(shut_down(&mut r, |_| Hook::Finished, || None).is_empty());
    assert!(r.report().is_clean());
    assert!(matches!(r.add(module("c", &[], &[])), Err(FrameworkError::RuntimeNotFresh)));
    assert!(matches!(r.begin_start(true), Err(FrameworkError::RuntimeNotFresh)));
}

#[test]
fn interrupted_cleanups_are_taken_up() {
    let mut r = started();
    r.state.spawn(&LifecycleOptions::default(), &id("a"), true).ok().unwrap();
    assert_eq!(r.shutdown_step(), Step::Stop(0));
    r.stopped(0, Hook::Finished);
    assert_eq!(r.shutdown_step(), Step::Join(0));
    r.cleanup_timed_out(0);
    assert_eq!(r.report().issues.len(), 1);
    assert_eq!(r.snapshot().pending_cleanup_instances, 1);
    let steps = shut_down(&mut r, |_| Hook::Finished, || None);
    assert_eq!(steps, vec![Step::Join(0), Step::Remove(0), Step::Stop(1), Step::Remove(1)]);
    assert_eq!(r.snapshot(), RuntimeSnapshot::default());
}

#[test]
fn failed_hooks_are_reported() {
    let r = started();
    assert!(r.started(1, Hook::Failed("x".into())).is_some());
    assert!(r.started(1, Hook::TimedOut).is_some());
    let mut r = started();
    let first = r.shutdown_step();
    assert_eq!(first, Step::Stop(0));
    r.stopped(0, Hook::TimedOut);
    loop {
        match r.shutdown_step() {
            Step::Stop(i) => r.stopped(i, Hook::Failed("bad".into())),
            Step::Join(i) => r.joined(i, Some("panic".into())),
            Step::Dispose(i, _) => r.disposed(i),
            Step::Remove(_) => r.removed(),
            Step::Done => break,
        }
    }
    assert!(!r.report().is_clean());
}

#[test]
fn services_resolve_only_exactly() {
    let r = started();
    assert!(r.state.service(&id("a"), &key("x")).is_ok());
    let other = ServiceKey::new("x".into(), 2, "host".into());
    assert!(r.state.service(&id("a"), &other).is_err());
    assert!(r.state.service(&id("b"), &key("x")).is_ok());
    assert!(r.state.service(&id("a"), &key("y")).is_err());
    assert!(r.state.service(&id("c"), &key("x")).is_err());
}

#[test]
fn stopped_instances_do_nothing() {
    let mut s: SharedState = started().state;
    s.revoke(&id("b"));
    assert!(!s.is_accepting(&id("b")));
    assert!(s.publish(&id("b"), &key("x")).is_err());
    assert!(s.service(&id("a"), &key("x")).is_err());
    assert_eq!(s.take_resources(&id("b")), (0, 0));
}

#[test]
fn events_reach_their_listeners() {
    let options = LifecycleOptions::default();
    let mut s: SharedState = started().state;
    s.subscribe(&options, &id("a"), "topic", 4, &vec![]).ok().unwrap();
    let targets = s.emit(&options, &id("b"), "topic", "data").ok().unwrap();
    assert_eq!(targets, vec![true]);
    let report = s.sent("topic", &vec![Sent::Delivered]);
    assert_eq!((report.delivered, report.full, report.closed), (1, 0, 0));
    assert!(s.subscribe(&options, &id("a"), "topic", 0, &vec![true]).is_err());
    let report = s.sent("topic", &vec![Sent::Closed]);
    assert_eq!(report.closed, 1);
    assert!(s.listeners.is_empty());
}

#[test]
fn closed_scopes_take_nothing() {
    let mut scope = CallScope::default();
    let call = scope.begin().ok().unwrap();
    assert_eq!(scope.close(), vec![call]);
    assert!(matches!(scope.begin(), Err(DispatchError::Closed)));
    assert!(!scope.drained());
    assert_eq!(scope.end(call), 0);
    assert!(scope.drained());
    assert!(dispatch_error(DispatchError::Closed).message().len() > 0);
}

// Protocol.

#[test]
fn identities_are_bounded() {
    assert!(valid_id("a.b-c_1"));
    assert!(!valid_id("a:b"));
    assert!(!valid_id(&"a".repeat(129)));
    assert_eq!(call_id(12, "345", 6), "12-345-6");
}

#[test]
fn frames_end_at_the_first_newline_however_they_are_cut() {
    let line = b"{\"a\":1}\nrest";
    for cut in 1..line.len() {
        let mut reader = FrameReader::new();
        let mut got = None;
        let mut rest: &[u8] = line;
        let mut first = true;
        while got.is_none() {
            let n = if first { cut } else { rest.len() };
            first = false;
            let (used, frame) = reader.feed(&rest[..n.min(rest.len())]).ok().unwrap();
            rest = &rest[used..];
            got = frame;
        }
        assert_eq!(got.unwrap(), b"{\"a\":1}\n".to_vec());
    }
    assert!(outgoing(10).is_ok());
    assert!(outgoing(usize::MAX).is_err());
}

#[test]
fn schemas_decide_values() {
    let schema = json("{\"type\":\"object\",\"properties\":{\"a\":{\"type\":\"integer\",\"minimum\":1}},\"required\":[\"a\"],\"additionalProperties\":false}");
    assert!(validate_schema(&schema).is_ok());
    assert!(validate_value(&schema, &json("{\"a\":2}")).is_ok());
    for bad in ["{}", "{\"a\":0}", "{\"a\":\"x\"}", "{\"a\":1,\"b\":2}", "[]", "{\"a\":1.5}"] {
        assert!(validate_value(&schema, &json(bad)).is_err(), "{bad}");
    }
    assert!(validate_schema(&json("{\"type\":\"nothing\"}")).is_err());
    assert!(validate_schema(&json("[]")).is_err());
}

#[test]
fn results_wait_for_callbacks() {
    let mut call = CallState::new("c".into(), true);
    let ask = Message::Callback { id: "k".into(), parent_id: "c".into(), method: "m".into(), params: json("{}") };
    assert!(matches!(call.on_message(ask), Action::Callback { .. }));
    let early = Message::Result { id: "c".into(), result: json("1") };
    assert!(matches!(call.on_message(early), Action::Finish(Err(ExtensionError::Protocol(_)))));
    let mut call = CallState::new("c".into(), true);
    let ask = Message::Callback { id: "k".into(), parent_id: "c".into(), method: "m".into(), params: json("{}") };
    call.on_message(ask);
    assert!(matches!(call.on_callback(Ok(json("2"))), Action::Send(Message::Result { .. })));
    let result = Message::Result { id: "c".into(), result: json("1") };
    match call.on_message(result) {
        Action::Finish(Ok(v)) => assert_eq!(v.render(), "1"),
        _ => panic!("expected the result"),
    }
}

#[test]
fn rejection_means_no_effects() {
    let error = |outcome| Message::Error { id: "c".into(), code: "no".into(), message: "x".into(), outcome };
    let mut call = CallState::new("c".into(), true);
    match call.on_message(error(Outcome::Rejected)) {
        Action::Finish(Err(ExtensionError::Rejected(m))) => assert_eq!(m, "no: x"),
        _ => panic!("expected a rejection"),
    }
    let mut call = CallState::new("c".into(), true);
    let ask = Message::Callback { id: "k".into(), parent_id: "c".into(), method: "m".into(), params: json("{}") };
    call.on_message(ask);
    call.on_callback(Ok(json("2")));
    assert!(matches!(call.on_message(error(Outcome::Rejected)), Action::Finish(Err(ExtensionError::Unknown { .. }))));
    let mut call = CallState::new("c".into(), false);
    let ask = Message::Callback { id: "k".into(), parent_id: "c".into(), method: "m".into(), params: json("{}") };
    assert!(matches!(call.on_message(ask), Action::Finish(Err(ExtensionError::Protocol(_)))));
    call.on_cancel();
    assert!(matches!(call.on_grace(), Action::Finish(Err(ExtensionError::Unknown { .. }))));
}

fn method(name: &str, read_only: bool) -> MethodDeclaration {
    MethodDeclaration {
        name: name.into(),
        read_only,
        input_schema: json("{\"type\":\"object\"}"),
        output_schema: json("{\"type\":\"object\"}"),
    }
}

fn metadata(name: &str, kind: ExtensionKind, contracts: Vec<ContractDeclaration>) -> ExtensionMetadata {
    ExtensionMetadata {
        protocol_version: 1,
        id: name.into(),
        kind,
        contracts,
        capabilities: vec![],
        workspaces: vec![],
    }
}

fn contract(name: &str) -> ContractDeclaration {
    ContractDeclaration { id: name.into(), version: 1, methods: vec![method("read", true)] }
}

#[test]
fn handshakes_are_checked() {
    let good = Message::Ready { metadata: metadata("p", ExtensionKind::Plugin, vec![contract("demo.a")]) };
    assert!(accept_ready("p", ExtensionKind::Plugin, good).is_ok());
    let other = Message::Ready { metadata: metadata("q", ExtensionKind::Plugin, vec![contract("demo.a")]) };
    assert!(accept_ready("p", ExtensionKind::Plugin, other).is_err());
    assert!(matches!(hello("p", ExtensionKind::Node), Message::Hello { .. }));
    assert!(check_deadline(Span::from_secs(0)).is_err());
    assert!(check_deadline(Span::from_secs(1)).is_ok());
    let call = ExtensionCall {
        contract: "demo.a".into(),
        version: 1,
        method: "read".into(),
        params: json("{}"),
        timeout: Span::from_secs(2),
    };
    match call_message(call, "c") {
        Message::Call { timeout_ms, id, .. } => assert_eq!((timeout_ms, id.as_str()), (2000, "c")),
        _ => panic!("expected a call"),
    }
}

// Nodes.

fn definition(name: &str, kind: ExtensionKind, namespaces: &[&str]) -> ExtensionDefinition {
    ExtensionDefinition {
        id: name.into(),
        kind,
        enabled: true,
        command: CommandSpec { program: "/bin/x".into(), args: vec![], cwd: "/tmp".into(), env: vec![] },
        namespaces: namespaces.iter().map(|n| n.to_string()).collect(),
        allow_calls: vec![
            AllowedMethod { contract: "demo.a".into(), version: 1, method: "read".into() },
            AllowedMethod { contract: "demo.a".into(), version: 1, method: "write".into() },
        ],
        allow_nodes: vec![],
    }
}

fn registry() -> ExtensionRegistry {
    let config = ExtensionsConfig {
        schema_version: 1,
        extensions: vec![definition("n", ExtensionKind::Node, &[]), definition("p", ExtensionKind::Plugin, &["demo"])],
    };
    let mut r = ExtensionRegistry::begin(&config, &vec![true, true]).ok().unwrap();
    for d in connect_order(&config) {
        let m = metadata(&d.id, d.kind, vec![contract("demo.a")]);
        r.connect(d, Ok(m));
    }
    r.finish();
    r
}

#[test]
fn plugins_register_before_nodes() {
    let r = registry();
    assert!(r.statuses.iter().all(|s| s.available), "{:?}", r.statuses.iter().map(|s| s.error.clone()).collect::<Vec<_>>());
    assert_eq!(r.contract_owner("demo.a", 1), Some("p"));
    assert_eq!(r.contract_owner("demo.a", 2), None);
    assert!(r.metadata("n").is_some());
}

#[test]
fn every_extension_has_one_status() {
    let mut off = definition("n", ExtensionKind::Node, &[]);
    off.enabled = false;
    let config = ExtensionsConfig {
        schema_version: 1,
        extensions: vec![
            off,
            definition("p", ExtensionKind::Plugin, &["demo"]),
            definition("q", ExtensionKind::Plugin, &["extra"]),
        ],
    };
    let mut r = ExtensionRegistry::begin(&config, &vec![true, true, true]).ok().unwrap();
    for d in connect_order(&config) {
        let probe = if d.id == "p" {
            Ok(metadata("p", ExtensionKind::Plugin, vec![contract("demo.a")]))
        } else {
            Err(ExtensionError::Unavailable("gone".into()))
        };
        r.connect(d, probe);
    }
    r.finish();
    let seen: Vec<(&str, bool)> = r.statuses.iter().map(|s| (s.id.as_str(), s.available)).collect();
    assert_eq!(seen, vec![("p", true), ("q", false), ("n", false)]);
    for s in &r.statuses {
        assert_eq!(r.metadata(&s.id).is_some(), s.available);
    }
}

#[test]
fn claims_do_not_overlap() {
    let config = ExtensionsConfig {
        schema_version: 1,
        extensions: vec![
            definition("p", ExtensionKind::Plugin, &["demo"]),
            definition("q", ExtensionKind::Plugin, &["demo.sub"]),
        ],
    };
    assert!(config.validate(&vec![true, true]).is_err());
}

#[test]
fn failed_registrations_change_nothing() {
    let config =
        ExtensionsConfig { schema_version: 1, extensions: vec![definition("p", ExtensionKind::Plugin, &["demo"])] };
    let mut r = ExtensionRegistry::begin(&config, &vec![true]).ok().unwrap();
    let foreign = metadata("p", ExtensionKind::Plugin, vec![contract("other.a")]);
    r.connect(definition("p", ExtensionKind::Plugin, &["demo"]), Ok(foreign));
    assert!(!r.statuses[0].available);
    assert!(r.contracts.is_empty());
    assert!(r.metadata("p").is_none());
}

#[test]
fn nodes_implement_registered_contracts() {
    let config = ExtensionsConfig { schema_version: 1, extensions: vec![definition("n", ExtensionKind::Node, &[])] };
    let mut r = ExtensionRegistry::begin(&config, &vec![true]).ok().unwrap();
    r.connect(definition("n", ExtensionKind::Node, &[]), Ok(metadata("n", ExtensionKind::Node, vec![contract("demo.a")])));
    assert!(!r.statuses[0].available);
}

#[test]
fn only_reads_are_called() {
    let r = registry();
    let second = Span::from_secs(1);
    assert!(r.call_read_only("p", "demo.a", 1, "read", json("{}"), second, true).is_ok());
    assert!(r.call_read_only("p", "demo.a", 1, "write", json("{}"), second, true).is_err());
    assert!(r.call_read_only("p", "demo.a", 1, "other", json("{}"), second, true).is_err());
    assert!(r.call_read_only("x", "demo.a", 1, "read", json("{}"), second, true).is_err());
    assert!(r.call_read_only("p", "demo.a", 1, "read", json("[]"), second, true).is_err());
    assert!(r.read_only_result("p", "demo.a", 1, "read", json("{}")).is_ok());
    assert!(r.read_only_result("p", "demo.a", 1, "read", json("[]")).is_err());
    assert!(r.monitoring_view_registration("p").ok().unwrap().is_none());
    assert!(check_callback("anything").is_err());
    assert!(validate_metadata(ExtensionKind::Plugin, &metadata("p", ExtensionKind::Plugin, vec![contract("demo.a")])).is_ok());
}

// Actions.

fn disk(names: &[&str]) -> Vec<Part> {
    let mut parts = vec![Part::Volume { verbatim: false, volume: Volume::Disk('C') }, Part::Root];
    parts.extend(names.iter().map(|n| Part::Name(n.to_string())));
    parts
}

fn location(names: &[&str]) -> Location {
    Location { text: format!("C:\\{}", names.join("\\")), parts: disk(names) }
}

#[test]
fn file_names_stay_plain() {
    for good in ["a.txt", "dir/a.txt", "COMMA.txt"] {
        assert!(validate_relative(good).is_ok(), "{good}");
    }
    for bad in ["", "../a", "a//b", ".git/x", "CON", "con.txt", "LPT1.log", "COMX.txt", "a\\b", "C:/x", "a ", "a.", "a\u{1}"] {
        assert!(matches!(validate_relative(bad), Err(ActionError::Denied(_))), "{bad}");
    }
}

#[test]
fn only_listed_files_in_scope_open() {
    let files = ScopedFiles::open(location(&["work"]), &vec!["a.txt".into()], vec![location(&["work", "secret"])]);
    let files = files.ok().unwrap();
    assert!(files.check_name("a.txt").is_ok());
    assert!(files.check_name("b.txt").is_err());
    assert!(files.check_opened(&disk(&["work", "a.txt"]), &disk(&["WORK", "A.TXT"])).is_ok());
    assert!(files.check_opened(&disk(&["else", "a.txt"]), &disk(&["else", "a.txt"])).is_err());
    assert!(files.check_opened(&disk(&["work", "secret"]), &disk(&["work", "secret"])).is_err());
    assert_eq!(files.allowed_files(), vec!["a.txt"]);
    assert!(ScopedFiles::open(location(&["work"]), &vec!["../x".into()], vec![]).is_err());
}

#[test]
fn handles_lead_where_they_should() {
    assert!(verify_handle_path(&disk(&["A"]), &disk(&["a"])).is_ok());
    assert!(verify_handle_path(&disk(&["b"]), &disk(&["a"])).is_err());
    assert!(path_within(&disk(&["a", "b"]), &disk(&["A"])).ok().unwrap());
    assert!(windows_components(&vec![Part::Root]).is_err());
    assert!(verify_directory(true, false).is_ok());
    assert!(verify_directory(true, true).is_err());
    assert!(verify_file(true, false, 1).is_ok());
    assert!(verify_file(true, false, 2).is_err());
    assert!(check_target(false, &disk(&["a"]), 1).is_err());
}

#[test]
fn edits_replace_what_is_there() {
    let edit = TextEdit { path: "a".into(), expected: "old".into(), replacement: "new".into() };
    assert!(check_edit(&edit).is_ok());
    assert!(check_content(&edit, "old").is_ok());
    assert!(matches!(check_content(&edit, "other"), Err(ActionError::Changed)));
    let done = receipt(&edit, Ok("new".into())).ok().unwrap();
    assert_eq!((done.path.as_str(), done.bytes_written, done.content_verified), ("a", 3, true));
    assert!(matches!(receipt(&edit, Ok("else".into())), Err(ActionError::Unknown(_))));
    assert!(matches!(receipt(&edit, Err("disk".into())), Err(ActionError::Unknown(_))));
    let big = TextEdit { path: "a".into(), expected: "x".repeat(16385), replacement: "".into() };
    assert!(check_edit(&big).is_err());
    assert_eq!(read_bounded(3, Some("abc".into())).ok().unwrap(), "abc");
    assert!(read_bounded(16385, Some("x".into())).is_err());
    assert!(read_bounded(3, None).is_err());
}

#[test]
fn extension_configurations_are_bounded() {
    assert!(recuvora::nodes::check_config_size(262144).is_ok());
    let refused = recuvora::nodes::check_config_size(262145).err().unwrap();
    assert!(refused.message().ends_with("configuration exceeds 256 KiB"));
}
