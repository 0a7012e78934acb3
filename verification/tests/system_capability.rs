use web_transport::system_capability::{
    command_line, decide_kill, exit_code, exit_notification, extract_kill_params,
    extract_launch_spec, handle_kill, handle_killed, handle_launch_spec, handle_spawn,
    handle_spawned, kill_request, launch_spec_text, new_registry, parse_addin_method, route,
    try_dispatch_addin_method, ChildStatus, Dispatch, JsonRpcRequest, JsonRpcResponse, KillAction,
    KillCommand, KillEvent, KillPhase, KillSequence, KillSignal, LaunchSpec, SpawnAction,
    SpawnResult,
};

fn request(method: &str, id: &str, params: &str) -> JsonRpcRequest {
    JsonRpcRequest {
        method: method.to_owned(),
        id: Some(id.to_owned()),
        params: Some(params.to_owned()),
    }
}

/// Reads a payload as a request: an object with a string `method`; `null` is as good as absent.
fn read(payload: &str) -> Option<JsonRpcRequest> {
    let object: serde_json::Value = serde_json::from_str(payload).ok()?;
    let text = |name: &str| object.get(name).filter(|v| !v.is_null()).map(|v| v.to_string());
    Some(JsonRpcRequest {
        method: object.get("method")?.as_str()?.to_owned(),
        id: text("id"),
        params: text("params"),
    })
}

fn value(text: &str) -> serde_json::Value {
    serde_json::from_str(text).unwrap()
}

fn spawn_answer(action: SpawnAction) -> String {
    match action {
        SpawnAction::Answer(text) => text,
        other => panic!("no answer: {:?}", other),
    }
}

fn kill_answer(action: KillAction) -> String {
    match action {
        KillAction::Answer(text) => text,
        other => panic!("no answer: {:?}", other),
    }
}

fn spec() -> LaunchSpec {
    LaunchSpec {
        binary: "sleep".to_owned(),
        args: vec!["30".to_owned()],
        env: std::collections::HashMap::new(),
        startup_command: None,
        extra_args: Vec::new(),
    }
}

#[test]
fn dispatch_routes_addin_method_to_handler_not_external_event() {
    let payload = r#"{"jsonrpc":"2.0","id":1,"method":"addin.spawn","params":{}}"#;
    let req = parse_addin_method(read(payload));
    assert!(req.is_some());
    assert_eq!(req.unwrap().method, "addin.spawn");
}

#[test]
fn dispatch_routes_non_addin_method_to_external_event() {
    let payload = r#"{"jsonrpc":"2.0","id":2,"method":"tools/call","params":{}}"#;
    let req = parse_addin_method(read(payload));
    assert!(req.is_none());
}

#[test]
fn parse_addin_method_returns_none_for_non_json() {
    assert!(parse_addin_method(read("not-json")).is_none());
}

#[test]
fn parse_addin_method_returns_none_for_session_method() {
    let payload = r#"{"jsonrpc":"2.0","method":"session.register","params":{}}"#;
    assert!(parse_addin_method(read(payload)).is_none());
}

#[test]
fn try_dispatch_returns_false_for_non_addin_method() {
    let payload = r#"{"jsonrpc":"2.0","id":1,"method":"tools/call","params":{}}"#;
    assert!(matches!(try_dispatch_addin_method(read(payload)), Dispatch::NotAddin));
}

#[test]
fn try_dispatch_returns_true_for_addin_method() {
    let payload = r#"{"jsonrpc":"2.0","id":1,"method":"addin.spawn","params":{}}"#;
    assert!(!matches!(try_dispatch_addin_method(read(payload)), Dispatch::NotAddin));
}

#[test]
fn jsonrpc_response_ok_serialization() {
    let resp = JsonRpcResponse::ok(Some("1".to_owned()), "{\"pid\":42}".to_owned());
    let s = resp.to_json();
    let v: serde_json::Value = serde_json::from_str(&s).unwrap();
    assert_eq!(v["jsonrpc"], "2.0");
    assert_eq!(v["id"], 1);
    assert_eq!(v["result"]["pid"], 42);
    assert!(v["error"].is_null());
    assert_eq!(s, "{\"jsonrpc\":\"2.0\",\"id\":1,\"result\":{\"pid\":42}}");
}

#[test]
fn jsonrpc_response_err_serialization() {
    let resp = JsonRpcResponse::err(None, -32601, "method not found");
    let s = resp.to_json();
    let v: serde_json::Value = serde_json::from_str(&s).unwrap();
    assert_eq!(v["error"]["code"], -32601);
    assert_eq!(v["error"]["message"], "method not found");
    assert!(v["result"].is_null());
    assert_eq!(
        s,
        "{\"jsonrpc\":\"2.0\",\"error\":{\"code\":-32601,\"message\":\"method not found\"}}"
    );
}

#[test]
fn kill_unknown_pid_returns_error() {
    let registry = new_registry();
    let req = request("addin.kill", "10", "{\"pid\":99999999,\"force\":false}");
    let resp = value(&kill_answer(handle_kill(req, &registry)));
    assert!(resp["error"].is_object(), "expected error for unknown pid");
    assert!(
        resp["error"]["message"].as_str().unwrap_or("").contains("supervisor registry"),
        "error message should mention supervisor registry"
    );
    assert_eq!(resp["id"], 10);
    assert_eq!(resp["error"]["code"], -32001);
    assert_eq!(resp["error"]["message"], "pid 99999999 is not in supervisor registry");
}

#[test]
fn kill_known_pid_terminates_process() {
    let mut registry = new_registry();
    let launch = match handle_spawn(request(
        "addin.spawn",
        "1",
        "{\"launch_spec\":{\"binary\":\"sleep\",\"args\":[\"30\"]}}",
    )) {
        SpawnAction::ReadSpec { id, spec_text } => {
            assert_eq!(value(&spec_text)["binary"], "sleep");
            handle_launch_spec(id, Ok(spec()))
        }
        other => panic!("not read: {:?}", other),
    };
    let id = match launch {
        SpawnAction::Launch { id, spec, args } => {
            assert_eq!(spec.binary, "sleep");
            assert_eq!(args, vec!["30".to_owned()]);
            id
        }
        other => panic!("not launched: {:?}", other),
    };
    let spawn_resp = value(&handle_spawned(id, SpawnResult::Running(4242), &mut registry));
    assert_eq!(spawn_resp["result"]["pid"], 4242);

    let req = request("addin.kill", "2", "{\"pid\":4242,\"force\":true}");
    match handle_kill(req, &registry) {
        KillAction::Kill { id, pid, force } => {
            assert_eq!(pid, 4242);
            assert!(force);
            assert_eq!(handle_killed(id, Ok(())), "{\"jsonrpc\":\"2.0\",\"id\":2,\"result\":{\"ok\":true}}");
        }
        other => panic!("not killed: {:?}", other),
    }
}

#[test]
fn spawn_invalid_binary_returns_error() {
    let mut registry = new_registry();
    let failed = SpawnResult::Failed("No such file or directory (os error 2)".to_owned());
    let resp = value(&handle_spawned(Some("42".to_owned()), failed, &mut registry));
    assert!(resp["error"].is_object(), "expected error, got: {resp}");
    assert_eq!(resp["error"]["code"], -32000);
    assert_eq!(
        resp["error"]["message"],
        "spawn failed: No such file or directory (os error 2)"
    );
}

#[test]
fn spawn_missing_launch_spec_returns_error() {
    let req = request("addin.spawn", "5", "{\"expected_uid\":\"abc\"}");
    assert_eq!(extract_launch_spec(&req), Err("params.launch_spec is required".to_owned()));
    let resp = value(&spawn_answer(handle_spawn(req)));
    assert!(resp["error"].is_object());
    assert_eq!(resp["error"]["code"], -32602);
}

#[test]
fn kill_missing_pid_returns_error() {
    let registry = new_registry();
    let req = request("addin.kill", "6", "{\"force\":false}");
    let resp = value(&kill_answer(handle_kill(req, &registry)));
    assert!(resp["error"].is_object());
    assert_eq!(resp["error"]["code"], -32602);
    assert_eq!(resp["error"]["message"], "params.pid must be a non-negative integer");
}

#[test]
fn requests_without_params_are_answered() {
    let registry = new_registry();
    let bare = |method: &str| JsonRpcRequest { method: method.to_owned(), id: None, params: None };
    let expected =
        "{\"jsonrpc\":\"2.0\",\"error\":{\"code\":-32602,\"message\":\"params is required\"}}";
    assert_eq!(spawn_answer(handle_spawn(bare("addin.spawn"))), expected);
    assert_eq!(kill_answer(handle_kill(bare("addin.kill"), &registry)), expected);
}

#[test]
fn unreadable_launch_spec_is_answered() {
    let action = handle_launch_spec(Some("\"a\"".to_owned()), Err("missing field `binary`".to_owned()));
    assert_eq!(
        spawn_answer(action),
        "{\"jsonrpc\":\"2.0\",\"id\":\"a\",\"error\":{\"code\":-32602,\
         \"message\":\"invalid launch_spec: missing field `binary`\"}}"
    );
}

#[test]
fn process_without_a_number_is_answered() {
    let mut registry = new_registry();
    assert_eq!(
        handle_spawned(None, SpawnResult::Gone, &mut registry),
        "{\"jsonrpc\":\"2.0\",\"error\":{\"code\":-32000,\"message\":\"process exited immediately\"}}"
    );
}

#[test]
fn request_is_passed_on_as_it_was_read() {
    let payload = r#"{"method":"addin.kill","id":"x\"y","params":{"pid": 7, "force": true}}"#;
    let req = parse_addin_method(read(payload)).unwrap();
    assert_eq!(req.method, "addin.kill");
    assert_eq!(req.id.as_deref(), Some("\"x\\\"y\""));
    assert_eq!(extract_kill_params(&req), Ok((7, true)));
    match try_dispatch_addin_method(read(payload)) {
        Dispatch::Kill(req) => assert_eq!(req.id.as_deref(), Some("\"x\\\"y\"")),
        other => panic!("not routed: {:?}", other),
    }
}

#[test]
fn kill_params_are_read_strictly() {
    let of = |params: &str| extract_kill_params(&request("addin.kill", "1", params));
    let bad = Err("params.pid must be a non-negative integer".to_owned());
    assert_eq!(of("{\"pid\":5}"), Ok((5, false)));
    assert_eq!(of("{\"pid\":5,\"force\":\"yes\"}"), Ok((5, false)));
    assert_eq!(of("{\"pid\":4294967297}"), Ok((1, false)));
    assert_eq!(of("{\"pid\":18446744073709551615}"), Ok((4294967295, false)));
    assert_eq!(of("{\"pid\":18446744073709551616}"), bad);
    assert_eq!(of("{\"pid\":0,\"force\": false }"), Ok((0, false)));
    assert_eq!(of("{\"pid\":-0}"), bad);
    assert_eq!(of("{\"pid\":5.0}"), bad);
    assert_eq!(of("{\"pid\":5e0}"), bad);
    assert_eq!(of("{\"pid\":true}"), bad);
    assert_eq!(of("{\"pid\":-1}"), bad);
    assert_eq!(of("{\"pid\":1.5}"), bad);
    assert_eq!(of("{\"pid\":\"5\"}"), bad);
    assert_eq!(of("[1]"), bad);
}

#[test]
fn kill_request_puts_its_parts_together() {
    assert_eq!(kill_request(true, Some(9), None), Ok((9, false)));
    assert_eq!(kill_request(true, Some(0x1_0000_0009), Some(true)), Ok((9, true)));
    assert_eq!(kill_request(false, Some(9), None), Err("params is required".to_owned()));
}

#[test]
fn addin_methods_are_told_by_their_prefix() {
    let taken = |method: &str| parse_addin_method(Some(request(method, "1", "{}"))).is_some();
    assert!(taken("addin."));
    assert!(taken("addin.anything"));
    assert!(!taken("addin"));
    assert!(!taken("xaddin.spawn"));
    assert!(parse_addin_method(None).is_none());
    assert!(matches!(try_dispatch_addin_method(None), Dispatch::NotAddin));
}

#[test]
fn unknown_addin_method_is_answered() {
    match route(request("addin.reboot", "3", "{}")) {
        Dispatch::Answer(answer) => assert_eq!(
            answer,
            "{\"jsonrpc\":\"2.0\",\"id\":3,\"error\":{\"code\":-32601,\
             \"message\":\"method not found: addin.reboot\"}}"
        ),
        other => panic!("not answered: {:?}", other),
    }
    assert!(matches!(route(request("addin.kill", "3", "{}")), Dispatch::Kill(_)));
    assert!(matches!(route(request("addin.spawn", "3", "{}")), Dispatch::Spawn(_)));
}

#[test]
fn process_is_known_until_it_ends() {
    let mut registry = new_registry();
    handle_spawned(None, SpawnResult::Running(7), &mut registry);
    registry.register(8);
    assert!(registry.contains(7));
    assert!(matches!(
        decide_kill(None, Ok((7, false)), &registry),
        KillAction::Kill { pid: 7, force: false, .. }
    ));
    let note = registry.child_exited(7, ChildStatus::Exited(Some(3)));
    assert_eq!(
        note.as_deref(),
        Some(
            "{\"jsonrpc\":\"2.0\",\"method\":\"addin.child_exited\",\
             \"params\":{\"exit_code\":3,\"pid\":7}}"
        )
    );
    assert!(matches!(decide_kill(None, Ok((7, false)), &registry), KillAction::Answer(_)));
    assert!(registry.contains(8));
    assert_eq!(registry.child_exited(7, ChildStatus::WaitFailed), None);
}

#[test]
fn exit_codes_tell_how_a_process_ended() {
    assert_eq!(exit_code(ChildStatus::Exited(Some(-5))), -5);
    assert_eq!(exit_code(ChildStatus::Exited(None)), 0);
    assert_eq!(exit_code(ChildStatus::Signalled(9)), -9);
    assert_eq!(exit_code(ChildStatus::WaitFailed), -1);
    let note = exit_notification(u32::MAX, ChildStatus::Exited(Some(i32::MIN)));
    let v = value(&note);
    assert_eq!(v["method"], "addin.child_exited");
    assert_eq!(v["params"]["pid"], 4294967295_u64);
    assert_eq!(v["params"]["exit_code"], -2147483648_i64);
}

#[test]
fn kill_force_immediately_signals_sigkill() {
    let (mut sequence, first) = KillSequence::start(true);
    assert!(matches!(first, KillCommand::Send(KillSignal::Kill)));
    assert!(sequence.expects(&KillEvent::Sent));
    assert!(matches!(sequence.step(KillEvent::Sent), KillCommand::Finish(Ok(()))));
    assert_eq!(sequence.phase, KillPhase::Over);
    assert!(!sequence.expects(&KillEvent::Sent));
}

#[test]
fn gentle_kill_gives_time_to_end() {
    let (mut sequence, first) = KillSequence::start(false);
    assert!(matches!(first, KillCommand::Send(KillSignal::Terminate)));
    assert!(matches!(sequence.step(KillEvent::Sent), KillCommand::Wait(2000)));
    assert!(!sequence.expects(&KillEvent::Probed { alive: true }));
    assert!(matches!(sequence.step(KillEvent::GraceOver), KillCommand::Probe));
    let mut ended = sequence;
    assert!(matches!(ended.step(KillEvent::Probed { alive: false }), KillCommand::Finish(Ok(()))));
    assert!(matches!(
        sequence.step(KillEvent::Probed { alive: true }),
        KillCommand::Send(KillSignal::Kill)
    ));
    assert!(matches!(sequence.step(KillEvent::Sent), KillCommand::Finish(Ok(()))));
}

#[test]
fn failed_signals_are_reported() {
    let (mut gentle, _) = KillSequence::start(false);
    match gentle.step(KillEvent::SendFailed("ESRCH: No such process".to_owned())) {
        KillCommand::Finish(Err(message)) => {
            assert_eq!(message, "SIGTERM failed: ESRCH: No such process");
            assert_eq!(
                handle_killed(Some("4".to_owned()), Err(message)),
                "{\"jsonrpc\":\"2.0\",\"id\":4,\"error\":{\"code\":-32000,\
                 \"message\":\"SIGTERM failed: ESRCH: No such process\"}}"
            );
        }
        other => panic!("not ended: {:?}", other),
    }
    let (mut forced, _) = KillSequence::start(true);
    match forced.step(KillEvent::SendFailed("EPERM".to_owned())) {
        KillCommand::Finish(Err(message)) => assert_eq!(message, "SIGKILL failed: EPERM"),
        other => panic!("not ended: {:?}", other),
    }
}

#[test]
fn further_arguments_come_last() {
    let list = |items: &[&str]| -> Vec<String> { items.iter().map(|s| (*s).to_owned()).collect() };
    let mut echo = spec();
    echo.binary = "/bin/echo".to_owned();
    echo.args = list(&["a"]);
    echo.extra_args = list(&["b"]);
    assert_eq!(command_line(&echo), list(&["a", "b"]));
    echo.startup_command = Some("kind=client correlation_id=7".to_owned());
    assert_eq!(command_line(&echo), list(&["a", "/Ckind=client correlation_id=7", "b"]));
    match handle_launch_spec(None, Ok(echo.clone())) {
        SpawnAction::Launch { spec, args, .. } => {
            assert_eq!(spec.binary, "/bin/echo");
            assert_eq!(args, command_line(&echo));
        }
        other => panic!("not launched: {:?}", other),
    }
}

#[test]
fn launch_spec_text_puts_its_parts_together() {
    assert_eq!(launch_spec_text(true, Some("{}".to_owned())), Ok("{}".to_owned()));
    assert_eq!(launch_spec_text(true, None), Err("params.launch_spec is required".to_owned()));
    assert_eq!(launch_spec_text(false, None), Err("params is required".to_owned()));
}
