use homecore::dispatch::{handle_request, HostAction, INVALID_PARAMS_CODE, UNKNOWN_METHOD_CODE};
use homecore::envelope::{Envelope, Kind, RpcError, ShapeError};
use homecore::json::{ok_ack, JsonValue};
use homecore::log::{LogEntry, LogLevel};
use homecore::manager::{DiscoveryError, PluginManager};
use homecore::manifest::{exec_plan, pick_executable, ExecPlan, PluginManifest, PluginStatus};
use homecore::table::KeyedTable;
use homecore::session::{finish_call, hello_event, CallError, Incoming, LifecycleError, PluginSession};
use homecore::storage::Storage;
use homecore::subscriptions::SubscriptionSet;
use homecore::timer::{tick_event, TimerParams};

fn txt(s: &str) -> String {
    s.to_string()
}

fn obj(entries: Vec<(&str, JsonValue)>) -> JsonValue {
    JsonValue::Object(entries.into_iter().map(|(k, v)| (k.to_string(), v)).collect())
}

fn started() -> PluginSession<u32> {
    let mut s = PluginSession::new();
    s.hello().unwrap();
    s.on_handshake(Envelope::request(txt("i"), txt("plugin.init"), None)).unwrap();
    s.on_handshake(Envelope::request(txt("s"), txt("plugin.start"), None)).unwrap();
    s
}

fn manifest(id: &str, exec: &str) -> PluginManifest {
    PluginManifest {
        name: id.to_uppercase(),
        id: txt(id),
        version: txt("0.1.0"),
        api_version: txt("1"),
        executable: txt(exec),
        permissions: vec![],
    }
}

#[test]
fn handshake_reaches_running() {
    let mut s: PluginSession<u32> = PluginSession::new();
    assert_eq!(s.status(), PluginStatus::Discovered);
    let hello = s.hello().unwrap();
    let expected_hello = Envelope::event(
        txt("core.hello"),
        Some(obj(vec![
            ("api_version", JsonValue::Str(txt("1"))),
            (
                "services",
                JsonValue::Array(vec![
                    JsonValue::Str(txt("log")),
                    JsonValue::Str(txt("event")),
                    JsonValue::Str(txt("timer")),
                    JsonValue::Str(txt("storage")),
                ]),
            ),
        ])),
    );
    assert_eq!(hello, expected_hello);
    assert_eq!(hello_event(), expected_hello);

    let init_params = obj(vec![(
        "metadata",
        obj(vec![
            ("id", JsonValue::Str(txt("p"))),
            ("name", JsonValue::Str(txt("P"))),
            ("version", JsonValue::Str(txt("0"))),
            ("needs", JsonValue::Array(vec![])),
        ]),
    )]);
    let out = s
        .on_handshake(Envelope::request(txt("r1"), txt("plugin.init"), Some(init_params)))
        .unwrap();
    assert_eq!(out, vec![Envelope::response_ok(Some(txt("r1")), ok_ack())]);
    assert_eq!(s.status(), PluginStatus::Discovered);

    let out = s
        .on_handshake(Envelope::request(txt("r2"), txt("plugin.start"), Some(obj(vec![]))))
        .unwrap();
    assert_eq!(
        out,
        vec![
            Envelope::response_ok(Some(txt("r2")), ok_ack()),
            Envelope::event(txt("system.ready"), None),
        ]
    );
    assert_eq!(s.status(), PluginStatus::Running);
}

#[test]
fn handshake_out_of_order_stops_plugin() {
    let mut s: PluginSession<u32> = PluginSession::new();
    assert_eq!(
        s.on_handshake(Envelope::request(txt("x"), txt("plugin.init"), None)),
        Err(LifecycleError::WrongPhase)
    );
    s.hello().unwrap();
    assert_eq!(s.hello(), Err(LifecycleError::WrongPhase));
    let r = s.on_handshake(Envelope::request(txt("x"), txt("plugin.start"), None));
    assert_eq!(r, Err(LifecycleError::HandshakeViolation));
    assert_eq!(s.status(), PluginStatus::Stopped);
}

#[test]
fn handshake_needs_an_id() {
    let mut s: PluginSession<u32> = PluginSession::new();
    s.hello().unwrap();
    let mut init = Envelope::request(txt("x"), txt("plugin.init"), None);
    init.id = None;
    assert_eq!(s.on_handshake(init), Err(LifecycleError::HandshakeViolation));
    assert_eq!(s.status(), PluginStatus::Stopped);
}

#[test]
fn responses_reach_their_callers() {
    let mut s = started();
    let a = s.begin_call(txt("a"), txt("sample.ping"), JsonValue::Null, 1).unwrap();
    let b = s.begin_call(txt("b"), txt("sample.ping"), JsonValue::Null, 2).unwrap();
    assert_eq!(a, Envelope::request(txt("a"), txt("sample.ping"), Some(JsonValue::Null)));
    assert_eq!(b.id, Some(txt("b")));

    match s.on_envelope(Envelope::response_ok(Some(txt("b")), JsonValue::Str(txt("for b")))) {
        Incoming::Deliver(slot, outcome) => {
            assert_eq!(slot, 2);
            assert_eq!(outcome, Ok(JsonValue::Str(txt("for b"))));
        }
        other => panic!("unexpected {:?}", other),
    }
    match s.on_envelope(Envelope::response_ok(Some(txt("a")), JsonValue::Str(txt("for a")))) {
        Incoming::Deliver(slot, outcome) => {
            assert_eq!(slot, 1);
            assert_eq!(finish_call(outcome), Ok(JsonValue::Str(txt("for a"))));
        }
        other => panic!("unexpected {:?}", other),
    }
    // A second response for the same id finds no slot.
    assert!(matches!(
        s.on_envelope(Envelope::response_ok(Some(txt("a")), JsonValue::Null)),
        Incoming::Unmatched
    ));
}

#[test]
fn response_without_outcome_is_rejected() {
    let mut s = started();
    s.begin_call(txt("n"), txt("m"), JsonValue::Null, 4).unwrap();
    let mut resp = Envelope::response_ok(Some(txt("n")), JsonValue::Null);
    resp.result = None;
    assert!(matches!(s.on_envelope(resp), Incoming::Rejected(ShapeError::MissingOutcome)));
    match s.on_envelope(Envelope::response_ok(Some(txt("n")), JsonValue::Null)) {
        Incoming::Deliver(slot, outcome) => {
            assert_eq!(slot, 4);
            assert_eq!(finish_call(outcome), Ok(JsonValue::Null));
        }
        other => panic!("unexpected {:?}", other),
    }
}

#[test]
fn duplicate_call_id_is_refused() {
    let mut s = started();
    s.begin_call(txt("a"), txt("m"), JsonValue::Null, 1).unwrap();
    match s.begin_call(txt("a"), txt("m"), JsonValue::Null, 9) {
        Err((CallError::DuplicateId, back)) => assert_eq!(back, 9),
        other => panic!("unexpected {:?}", other),
    }
}

#[test]
fn cancelled_call_discards_late_response() {
    let mut s = started();
    s.begin_call(txt("a"), txt("m"), JsonValue::Null, 1).unwrap();
    assert_eq!(s.cancel_call("a"), Some(1));
    assert_eq!(s.cancel_call("a"), None);
    assert!(matches!(
        s.on_envelope(Envelope::response_ok(Some(txt("a")), JsonValue::Null)),
        Incoming::Unmatched
    ));
}

#[test]
fn error_response_reaches_caller_with_code() {
    let mut s = started();
    s.begin_call(txt("e"), txt("m"), JsonValue::Null, 5).unwrap();
    let err = RpcError { code: 42, message: txt("broken") };
    match s.on_envelope(Envelope::response_err(Some(txt("e")), err)) {
        Incoming::Deliver(slot, outcome) => {
            assert_eq!(slot, 5);
            assert_eq!(
                finish_call(outcome),
                Err(CallError::MethodError { code: 42, message: txt("broken") })
            );
        }
        other => panic!("unexpected {:?}", other),
    }
}

#[test]
fn unknown_method_answered_with_error() {
    let mut s = started();
    let mut req = Envelope::request(txt("r"), txt("nope"), None);
    req.params = None;
    match s.on_envelope(req) {
        Incoming::Answer(reply) => {
            assert_eq!(
                reply.response,
                Envelope::response_err(
                    Some(txt("r")),
                    RpcError { code: -32601, message: txt("unknown method nope") }
                )
            );
            assert_eq!(reply.action, None);
        }
        other => panic!("unexpected {:?}", other),
    }
    assert_eq!(UNKNOWN_METHOD_CODE, -32601);
}

#[test]
fn log_write_forwards_entry() {
    let mut s = started();
    let params = obj(vec![
        ("level", JsonValue::Str(txt("INFO"))),
        ("message", JsonValue::Str(txt("hi"))),
    ]);
    match s.on_envelope(Envelope::request(txt("r"), txt("log.write"), Some(params))) {
        Incoming::Answer(reply) => {
            assert_eq!(reply.response, Envelope::response_ok(Some(txt("r")), ok_ack()));
            assert_eq!(
                reply.action,
                Some(HostAction::Log(LogEntry { level: LogLevel::Info, message: txt("hi") }))
            );
        }
        other => panic!("unexpected {:?}", other),
    }
}

#[test]
fn log_levels_ignore_case() {
    assert_eq!(homecore::log::write("warn", "m").level, LogLevel::Warn);
    assert_eq!(homecore::log::write("Error", "m").level, LogLevel::Error);
    assert_eq!(homecore::log::write("trace", "m").level, LogLevel::Trace);
    assert_eq!(homecore::log::write("debug", "m").level, LogLevel::Debug);
    assert_eq!(homecore::log::write("verbose", "m").level, LogLevel::Info);
    assert_eq!(homecore::log::write("", "m").message, txt("m"));
}

#[test]
fn log_write_without_text_fields_still_answers() {
    let mut subs = SubscriptionSet::new();
    let mut store = Storage::new();
    let params = obj(vec![("level", JsonValue::UInt(3))]);
    let reply = handle_request(&mut subs, &mut store, txt("q"), "log.write", Some(params));
    assert_eq!(reply.response, Envelope::response_ok(Some(txt("q")), ok_ack()));
    assert_eq!(reply.action, None);
}

#[test]
fn timer_request_and_ticks() {
    let mut s = started();
    let sub = obj(vec![("topics", JsonValue::Array(vec![JsonValue::Str(txt("timer.tick"))]))]);
    match s.on_envelope(Envelope::request(txt("s1"), txt("event.subscribe"), Some(sub))) {
        Incoming::Answer(reply) => assert_eq!(reply.action, None),
        other => panic!("unexpected {:?}", other),
    }
    assert!(s.is_subscribed("timer.tick"));
    let params = obj(vec![("id", JsonValue::Str(txt("t"))), ("millis", JsonValue::UInt(50))]);
    match s.on_envelope(Envelope::request(txt("s2"), txt("timer.set_interval"), Some(params))) {
        Incoming::Answer(reply) => {
            assert_eq!(reply.response, Envelope::response_ok(Some(txt("s2")), ok_ack()));
            assert_eq!(
                reply.action,
                Some(HostAction::StartTimer(TimerParams { id: txt("t"), millis: 50 }))
            );
        }
        other => panic!("unexpected {:?}", other),
    }
    let first = s.tick("t", 1000).unwrap();
    let second = s.tick("t", 1050).unwrap();
    assert_eq!(first.topic, Some(txt("timer.tick")));
    assert_eq!(
        second.payload,
        Some(obj(vec![("id", JsonValue::Str(txt("t"))), ("now_ms", JsonValue::UInt(1050))]))
    );
    assert_eq!(first, tick_event("t", 1000));
}

#[test]
fn timer_with_zero_or_missing_period_starts_nothing() {
    let mut subs = SubscriptionSet::new();
    let mut store = Storage::new();
    let zero = obj(vec![("id", JsonValue::Str(txt("t"))), ("millis", JsonValue::UInt(0))]);
    let reply = handle_request(&mut subs, &mut store, txt("1"), "timer.set_interval", Some(zero));
    assert_eq!(reply.action, None);
    let negative = obj(vec![("id", JsonValue::Str(txt("t"))), ("millis", JsonValue::NegInt(-5))]);
    let reply = handle_request(&mut subs, &mut store, txt("2"), "timer.set_interval", Some(negative));
    assert_eq!(reply.action, None);
    assert_eq!(reply.response, Envelope::response_ok(Some(txt("2")), ok_ack()));
}

#[test]
fn no_ticks_before_running() {
    let mut s: PluginSession<u32> = PluginSession::new();
    assert_eq!(s.tick("t", 1), None);
    s.hello().unwrap();
    assert_eq!(s.tick("t", 1), None);
}

#[test]
fn subscribe_is_idempotent() {
    let mut subs = SubscriptionSet::new();
    let topics = vec![
        JsonValue::Str(txt("a")),
        JsonValue::UInt(1),
        JsonValue::Str(txt("b")),
        JsonValue::Str(txt("a")),
    ];
    subs.subscribe(&topics);
    let once = subs.topics();
    subs.subscribe(&topics);
    assert_eq!(subs.topics(), once);
    assert_eq!(once, vec![txt("a"), txt("b")]);
    assert!(!subs.contains("c"));
}

#[test]
fn pipe_close_fails_calls() {
    let mut s = started();
    s.begin_call(txt("a"), txt("m"), JsonValue::Null, 7).unwrap();
    let slots = s.on_read_failure();
    assert_eq!(slots, vec![7]);
    assert_eq!(s.status(), PluginStatus::Stopped);
    match s.begin_call(txt("b"), txt("m"), JsonValue::Null, 8) {
        Err((CallError::ClosedPipe, back)) => assert_eq!(back, 8),
        other => panic!("unexpected {:?}", other),
    }
    assert!(matches!(
        s.on_envelope(Envelope::response_ok(Some(txt("a")), JsonValue::Null)),
        Incoming::NotRunning
    ));
}

#[test]
fn call_before_start_is_refused() {
    let mut s: PluginSession<u32> = PluginSession::new();
    match s.begin_call(txt("a"), txt("m"), JsonValue::Null, 3) {
        Err((CallError::PluginNotRunning, back)) => assert_eq!(back, 3),
        other => panic!("unexpected {:?}", other),
    }
}

#[test]
fn events_from_plugin_are_dropped_and_bad_shapes_rejected() {
    let mut s = started();
    assert!(matches!(s.on_envelope(Envelope::event(txt("x"), None)), Incoming::Dropped));
    let mut bad = Envelope::request(txt("1"), txt("m"), None);
    bad.method = None;
    assert!(matches!(s.on_envelope(bad), Incoming::Rejected(_)));
}

#[test]
fn pending_slot_resolves_once() {
    let mut t: KeyedTable<u8> = KeyedTable::new();
    assert_eq!(t.insert(txt("x"), 1), Ok(()));
    assert_eq!(t.insert(txt("x"), 2), Err(2));
    assert_eq!(t.insert(txt("y"), 3), Ok(()));
    assert_eq!(t.len(), 2);
    assert!(t.contains("x"));
    assert_eq!(t.remove("x"), Some(1));
    assert_eq!(t.remove("x"), None);
    assert!(!t.contains("x"));
    assert_eq!(t.drain(), vec![3]);
    assert_eq!(t.len(), 0);
}

#[test]
fn discovery_refuses_duplicate_ids() {
    let found = vec![
        (txt("/p/a"), manifest("a", "a")),
        (txt("/p/b"), manifest("b", "b")),
        (txt("/p/c"), manifest("a", "c")),
    ];
    match PluginManager::<u32>::discover(txt("/ws"), found) {
        Err(DiscoveryError::DuplicateId(id)) => assert_eq!(id, txt("a")),
        Err(other) => panic!("unexpected {:?}", other),
        Ok(_) => panic!("duplicates accepted"),
    }
}

#[test]
fn discovery_lists_plugins_in_order() {
    let found = vec![(txt("/p/a"), manifest("a", "a")), (txt("/p/b"), manifest("b", "bin/b"))];
    let m = PluginManager::<u32>::discover(txt("/ws"), found).unwrap();
    let listed = m.list();
    assert_eq!(listed.len(), 2);
    assert_eq!(listed[0].0.id, txt("a"));
    assert_eq!(listed[0].1, PluginStatus::Discovered);
    assert_eq!(listed[1].2, txt("/p/b"));
    assert_eq!(m.find("b"), Some(1));
    assert_eq!(m.find("z"), None);
    assert_eq!(m.exec_plan(1, ""), ExecPlan::Direct(txt("/p/b/bin/b")));
    let empty = PluginManager::<u32>::discover(txt("/ws"), vec![]).unwrap();
    assert_eq!(empty.len(), 0);
}

#[test]
fn manager_call_checks_plugin() {
    let found = vec![(txt("/p/a"), manifest("a", "a"))];
    let mut m = PluginManager::<u32>::discover(txt("/ws"), found).unwrap();
    match m.begin_call("zz", txt("m"), JsonValue::Null, 1) {
        Err((CallError::PluginNotFound, back)) => assert_eq!(back, 1),
        other => panic!("unexpected {:?}", other),
    }
    match m.begin_call("a", txt("m"), JsonValue::Null, 2) {
        Err((CallError::PluginNotRunning, back)) => assert_eq!(back, 2),
        other => panic!("unexpected {:?}", other),
    }
    let s = m.session_mut(0);
    s.hello().unwrap();
    s.on_handshake(Envelope::request(txt("i"), txt("plugin.init"), None)).unwrap();
    s.on_handshake(Envelope::request(txt("s"), txt("plugin.start"), None)).unwrap();
    let (id, req) = m.begin_call("a", txt("sample.ping"), JsonValue::Null, 3).unwrap();
    assert_eq!(id.len(), 36);
    assert_eq!(req.id, Some(id.clone()));
    assert_eq!(req.kind, Kind::Request);
    assert_eq!(m.handle(0).status(), PluginStatus::Running);
    let again = m.begin_call_with_id("a", id, txt("sample.ping"), JsonValue::Null, 4);
    assert!(matches!(again, Err((CallError::DuplicateId, 4))));
}

#[test]
fn executable_resolution() {
    assert_eq!(exec_plan("bin/tool", "/p/dir", "/ws", ""), ExecPlan::Direct(txt("/p/dir/bin/tool")));
    assert_eq!(exec_plan("/abs/tool", "/p/dir", "/ws", ""), ExecPlan::Direct(txt("/abs/tool")));
    let plan = exec_plan("tool", "/p/dir", "/ws", ".exe");
    assert_eq!(
        plan,
        ExecPlan::Search {
            name: txt("tool.exe"),
            primary: txt("/ws/target/debug/tool.exe"),
            build_dir: txt("/ws/target/debug"),
            deps_dir: txt("/ws/target/debug/deps"),
        }
    );
    let none: Vec<String> = vec![];
    assert_eq!(pick_executable(&plan, true, &none, &none), txt("/ws/target/debug/tool.exe"));
    let build = vec![txt("other"), txt("tool.exe-1234"), txt("tool.exe-9")];
    assert_eq!(
        pick_executable(&plan, false, &build, &none),
        txt("/ws/target/debug/tool.exe-1234")
    );
    let deps = vec![txt("tool.exe-abc")];
    assert_eq!(pick_executable(&plan, false, &none, &deps), txt("/ws/target/debug/deps/tool.exe-abc"));
    assert_eq!(pick_executable(&plan, false, &none, &none), txt("/ws/target/debug/tool.exe"));
}

#[test]
fn storage_put_then_get() {
    let mut s = started();
    let get = obj(vec![("key", JsonValue::Str(txt("k")))]);
    match s.on_envelope(Envelope::request(txt("g1"), txt("storage.get"), Some(get))) {
        Incoming::Answer(reply) => {
            assert_eq!(reply.response, Envelope::response_ok(Some(txt("g1")), JsonValue::Null));
            assert_eq!(reply.action, None);
        }
        other => panic!("unexpected {:?}", other),
    }
    let put = obj(vec![("key", JsonValue::Str(txt("k"))), ("value", JsonValue::UInt(5))]);
    match s.on_envelope(Envelope::request(txt("put"), txt("storage.put"), Some(put))) {
        Incoming::Answer(reply) => {
            assert_eq!(reply.response, Envelope::response_ok(Some(txt("put")), ok_ack()));
            assert_eq!(reply.action, Some(HostAction::Persist));
        }
        other => panic!("unexpected {:?}", other),
    }
    let get = obj(vec![("key", JsonValue::Str(txt("k")))]);
    match s.on_envelope(Envelope::request(txt("g2"), txt("storage.get"), Some(get))) {
        Incoming::Answer(reply) => {
            assert_eq!(reply.response, Envelope::response_ok(Some(txt("g2")), JsonValue::UInt(5)));
        }
        other => panic!("unexpected {:?}", other),
    }
    assert_eq!(s.stored_entries(), vec![(txt("k"), JsonValue::UInt(5))]);
}

#[test]
fn storage_without_key_is_invalid() {
    let mut subs = SubscriptionSet::new();
    let mut store = Storage::new();
    let reply = handle_request(&mut subs, &mut store, txt("x"), "storage.put", None);
    assert_eq!(
        reply.response,
        Envelope::response_err(
            Some(txt("x")),
            RpcError { code: INVALID_PARAMS_CODE, message: txt("invalid params") }
        )
    );
    assert_eq!(reply.action, None);
    assert_eq!(store.entries(), vec![]);
}

#[test]
fn storage_loads_later_entries_over_earlier() {
    let store = Storage::from_entries(vec![
        (txt("a"), JsonValue::UInt(1)),
        (txt("b"), JsonValue::Bool(true)),
        (txt("a"), JsonValue::UInt(2)),
    ]);
    assert_eq!(store.get("a"), Some(JsonValue::UInt(2)));
    assert_eq!(store.get("b"), Some(JsonValue::Bool(true)));
    assert_eq!(store.get("c"), None);
    assert_eq!(store.entries().len(), 2);
}

#[test]
fn call_errors_follow_plugin_phase() {
    let found = vec![(txt("/p/a"), manifest("a", "a"))];
    let mut m = PluginManager::<u32>::discover(txt("/ws"), found).unwrap();
    assert!(matches!(
        m.begin_call_with_id("a", txt("x"), txt("m"), JsonValue::Null, 1),
        Err((CallError::PluginNotRunning, 1))
    ));
    let s = m.session_mut(0);
    s.hello().unwrap();
    s.on_handshake(Envelope::request(txt("i"), txt("plugin.init"), None)).unwrap();
    s.on_handshake(Envelope::request(txt("s"), txt("plugin.start"), None)).unwrap();
    assert!(m.begin_call_with_id("a", txt("x"), txt("m"), JsonValue::Null, 2).is_ok());
    m.session_mut(0).on_read_failure();
    assert!(matches!(
        m.begin_call_with_id("a", txt("y"), txt("m"), JsonValue::Null, 3),
        Err((CallError::ClosedPipe, 3))
    ));
    assert!(matches!(m.begin_call("a", txt("m"), JsonValue::Null, 4), Err((CallError::ClosedPipe, 4))));
}
