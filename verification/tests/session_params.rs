use web_transport::session_params::{
    fresh_client_uid, infer_kind, kinds, parse_startup_param, resolve, resolve_with, ResolveInput,
    SessionParams, DEFAULT_MANAGER_URL, MANAGER_URL_CONSTANT,
};

fn input(constant: &str, launch: &str, startup: &str, uid: &str) -> ResolveInput {
    ResolveInput {
        constant_url: constant.to_owned(),
        launch_string: launch.to_owned(),
        startup_param: startup.to_owned(),
        client_uid: uid.to_owned(),
    }
}

#[test]
fn empty_constant_falls_back_to_default_url() {
    let p = resolve(&input("", "", "", "uid-1"));
    assert_eq!(p.manager_url, DEFAULT_MANAGER_URL);
}

#[test]
fn whitespace_constant_treated_as_empty() {
    let p = resolve(&input("   ", "", "", "uid-1"));
    assert_eq!(p.manager_url, DEFAULT_MANAGER_URL);
}

#[test]
fn explicit_constant_wins() {
    let p = resolve(&input("ws://10.0.0.5:4000/sessions", "", "", "uid-1"));
    assert_eq!(p.manager_url, "ws://10.0.0.5:4000/sessions");
}

#[test]
fn manager_url_in_startup_param_is_ignored() {
    let p = resolve(&input("", "", "manager_url=ws://hijack/", "uid-1"));
    assert_eq!(p.manager_url, DEFAULT_MANAGER_URL);
}

#[test]
fn kind_inferred_from_testmanager_flag() {
    let p = resolve(&input("", "DESIGNER /TESTMANAGER", "", "uid-1"));
    assert_eq!(p.kind, kinds::VANESSA_MANAGER);
}

#[test]
fn kind_inferred_from_testclient_flag_case_insensitive() {
    let p = resolve(&input("", "1cv8c /testclient -port=12345", "", "uid-1"));
    assert_eq!(p.kind, kinds::VANESSA_TEST_CLIENT);
}

#[test]
fn kind_inferred_from_runyaxunit_in_command_line() {
    let p = resolve(&input(
        "",
        "1cv8c ENTERPRISE /Sserver /CRunYaXUnit",
        "",
        "uid-1",
    ));
    assert_eq!(p.kind, kinds::YAXUNIT_RUNNER);
}

#[test]
fn kind_defaults_to_client() {
    let p = resolve(&input("", "1cv8c ENTERPRISE", "", "uid-1"));
    assert_eq!(p.kind, kinds::CLIENT);
}

#[test]
fn kind_override_from_startup_param_beats_heuristic() {
    let p = resolve(&input(
        "",
        "DESIGNER /TESTMANAGER",
        "kind=yaxunit_runner",
        "uid-1",
    ));
    assert_eq!(p.kind, "yaxunit_runner");
}

#[test]
fn empty_kind_override_keeps_heuristic() {
    let p = resolve(&input("", "DESIGNER /TESTMANAGER", "kind=", "uid-1"));
    assert_eq!(p.kind, kinds::VANESSA_MANAGER);
}

#[test]
fn correlation_id_extracted_from_startup_param() {
    let p = resolve(&input("", "", "correlation_id=trace-42", "uid-1"));
    assert_eq!(p.correlation_id.as_deref(), Some("trace-42"));
}

#[test]
fn correlation_id_absent_yields_none() {
    let p = resolve(&input("", "", "kind=client", "uid-1"));
    assert!(p.correlation_id.is_none());
}

#[test]
fn multiple_startup_pairs_parsed_independently() {
    let p = resolve(&input(
        "",
        "DESIGNER",
        "correlation_id=trace-7 kind=vanessa_manager other=ignored",
        "uid-1",
    ));
    assert_eq!(p.correlation_id.as_deref(), Some("trace-7"));
    assert_eq!(p.kind, "vanessa_manager");
}

#[test]
fn duplicate_keys_last_wins() {
    let pairs = parse_startup_param("kind=a kind=b");
    assert_eq!(pairs.get("kind").map(String::as_str), Some("b"));
}

#[test]
fn parse_skips_tokens_without_equals() {
    let pairs = parse_startup_param("garbage kind=client also-garbage");
    assert_eq!(pairs.len(), 1);
    assert_eq!(pairs.get("kind").map(String::as_str), Some("client"));
}

#[test]
fn empty_client_uid_generates_fresh_uuid_v4() {
    let p = resolve(&input("", "", "", ""));
    assert_eq!(p.client_uid.len(), 36);
    assert_eq!(p.client_uid.as_bytes()[8], b'-');
    assert_eq!(p.client_uid.as_bytes()[14], b'4');
}

#[test]
fn provided_client_uid_passes_through() {
    let p = resolve(&input("", "", "", "custom-uid"));
    assert_eq!(p.client_uid, "custom-uid");
}

#[test]
fn fresh_client_uid_is_unique_between_calls() {
    let a = fresh_client_uid();
    let b = fresh_client_uid();
    assert_ne!(a, b);
}

#[test]
fn json_serialization_drops_absent_correlation_id() {
    let p = SessionParams {
        manager_url: DEFAULT_MANAGER_URL.to_owned(),
        client_uid: "uid-1".to_owned(),
        kind: "client".to_owned(),
        correlation_id: None,
    };
    let json = p.to_json();
    assert!(!json.contains("correlation_id"));
    assert!(json.contains("\"manager_url\":\"ws://127.0.0.1:4000/sessions\""));
    assert!(json.contains("\"kind\":\"client\""));
}

#[test]
fn json_serialization_includes_correlation_id_when_present() {
    let p = SessionParams {
        manager_url: "ws://x/y".to_owned(),
        client_uid: "uid-2".to_owned(),
        kind: "vanessa_manager".to_owned(),
        correlation_id: Some("trace-9".to_owned()),
    };
    let json = p.to_json();
    assert!(json.contains("\"correlation_id\":\"trace-9\""));
}

#[test]
fn end_to_end_realistic_yaxunit_runner_invocation() {
    let p = resolve(&input(
        "ws://onec-infra:4000/sessions",
        "1cv8c ENTERPRISE /Sserver /CRunYaXUnit",
        "correlation_id=spawn-42 kind=yaxunit_runner",
        "fixed-uid-7",
    ));
    assert_eq!(p.manager_url, "ws://onec-infra:4000/sessions");
    assert_eq!(p.kind, "yaxunit_runner");
    assert_eq!(p.correlation_id.as_deref(), Some("spawn-42"));
    assert_eq!(p.client_uid, "fixed-uid-7");
}

#[test]
fn client_uid_in_startup_param_beats_the_given_one() {
    let p = resolve(&input("", "", "client_uid=expected", "generated"));
    assert_eq!(p.client_uid, "expected");
    let p = resolve(&input("", "", "client_uid=", "generated"));
    assert_eq!(p.client_uid, "generated");
}

#[test]
fn fresh_client_uid_is_taken_only_where_none_is_given() {
    let fresh = "fresh".to_owned();
    let none = input("", "", "kind=client", "");
    let given = input("", "", "", "given");
    let named = input("", "", "client_uid=named", "");
    assert_eq!(resolve_with(&none, fresh.clone()).client_uid, "fresh");
    assert_eq!(resolve_with(&given, fresh.clone()).client_uid, "given");
    assert_eq!(resolve_with(&named, fresh).client_uid, "named");
}

#[test]
fn drawn_client_uid_has_the_form_of_version_four() {
    let uid = resolve(&ResolveInput::default()).client_uid;
    for (i, c) in uid.chars().enumerate() {
        if i == 8 || i == 13 || i == 18 || i == 23 {
            assert_eq!(c, '-');
        } else {
            assert!(c.is_ascii_digit() || ('a'..='f').contains(&c));
        }
    }
    assert!("89ab".contains(&uid[19..20]));
}

#[test]
fn constant_is_trimmed() {
    let p = resolve(&input("\t ws://host/ \u{a0}\n", "", "", "uid-1"));
    assert_eq!(p.manager_url, "ws://host/");
    let bare = resolve(&input("ws://host/", "", "manager_url=ws://other/", "uid-1"));
    assert_eq!(p.manager_url, bare.manager_url);
}

#[test]
fn startup_pairs_are_cut_at_the_first_equals() {
    let pairs = parse_startup_param("\tq=a=b \u{2003} =lost  empty=\u{3000}k=\u{44f}");
    assert_eq!(pairs.len(), 3);
    assert_eq!(pairs.get("q").map(String::as_str), Some("a=b"));
    assert_eq!(pairs.get("empty").map(String::as_str), Some(""));
    assert_eq!(pairs.get("k").map(String::as_str), Some("\u{44f}"));
    assert_eq!(parse_startup_param("").len(), 0);
}

#[test]
fn empty_correlation_id_is_kept() {
    let p = resolve(&input("", "", "correlation_id=", "uid-1"));
    assert_eq!(p.correlation_id.as_deref(), Some(""));
}

#[test]
fn manager_flag_beats_client_flag_beats_test_run() {
    assert_eq!(infer_kind("RunYaXUnit /TestClient /testmanager"), "vanessa_manager");
    assert_eq!(infer_kind("RunYaXUnit /TestClient"), "vanessa_test_client");
    assert_eq!(infer_kind("runyaxunit"), "yaxunit_runner");
    assert_eq!(infer_kind("TESTMANAGER"), "client");
    assert_eq!(infer_kind(""), "client");
}

#[test]
fn session_params_are_written_in_this_order() {
    let p = SessionParams {
        manager_url: "ws://x/\"y\"".to_owned(),
        client_uid: "a\\b".to_owned(),
        kind: "line\nbreak\u{1}".to_owned(),
        correlation_id: Some("след".to_owned()),
    };
    assert_eq!(
        p.to_json(),
        "{\"manager_url\":\"ws://x/\\\"y\\\"\",\"client_uid\":\"a\\\\b\",\
         \"kind\":\"line\\nbreak\\u0001\",\"correlation_id\":\"след\"}"
    );
    let bare = SessionParams { correlation_id: None, ..p.clone() };
    assert_ne!(p, bare);
    assert_eq!(
        bare.to_json(),
        "{\"manager_url\":\"ws://x/\\\"y\\\"\",\"client_uid\":\"a\\\\b\",\
         \"kind\":\"line\\nbreak\\u0001\"}"
    );
}

#[test]
fn constant_has_its_name() {
    assert_eq!(MANAGER_URL_CONSTANT, "WebTransportSessionManagerURL");
}

#[test]
fn session_params_read_back_whatever_they_hold() {
    let p = SessionParams {
        manager_url: "ws://\u{44b}/\"".to_owned(),
        client_uid: "\\u0041".to_owned(),
        kind: "\u{8}\u{c}\r\u{1f}".to_owned(),
        correlation_id: Some(String::new()),
    };
    let v: serde_json::Value = serde_json::from_str(&p.to_json()).unwrap();
    assert_eq!(v.as_object().unwrap().len(), 4);
    assert_eq!(v["manager_url"], p.manager_url.as_str());
    assert_eq!(v["client_uid"], p.client_uid.as_str());
    assert_eq!(v["kind"], p.kind.as_str());
    assert_eq!(v["correlation_id"], "");
}
