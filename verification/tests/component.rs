use web_transport::component::{AddinClass, CLASS_NAMES, VERSION};
use web_transport::headers::{headers_of, parse_headers, HeaderValue, HeadersError};
use web_transport::log_filter::{choose_filter, is_safe_to_try, requested_filter};
use web_transport::session::{send_outcome, SessionError, SessionState};
use web_transport::session_integration::{
    accept_frame, WsConnector, WsFrame, CONNECT_TIMEOUT_MS,
};
use web_transport::tunnel::{SendError, TextOrClose};

#[test]
fn listed_classes_are_the_known_ones() {
    let classes = [AddinClass::Ws, AddinClass::Http, AddinClass::Mcp, AddinClass::Session];
    let names: Vec<&str> = classes.iter().map(|c| c.name()).collect();
    assert_eq!(CLASS_NAMES, names.join("|"));
    assert_eq!(CLASS_NAMES, "ws|http|mcp|session");
    for class in classes {
        assert_eq!(AddinClass::by_name(class.name()), Some(class));
    }
    assert_eq!(AddinClass::by_name("WS"), None);
    assert_eq!(AddinClass::by_name(""), None);
    assert_eq!(VERSION, "0.6.6");
}

#[test]
fn no_header_text_means_no_headers() {
    assert_eq!(parse_headers("").unwrap().len(), 0);
    assert_eq!(parse_headers("{}").unwrap().len(), 0);
}

#[test]
fn header_values_become_text() {
    let headers = parse_headers(
        r#"{"s":"a b","n":1.50,"i":-7,"t":true,"f":false,"z":null,"a":[1],"o":{"x":1}}"#,
    )
    .unwrap();
    let text = |name: &str| headers.get(name).map(String::as_str);
    assert_eq!(headers.len(), 8);
    assert_eq!(text("s"), Some("a b"));
    assert_eq!(text("n"), Some("1.5"));
    assert_eq!(text("i"), Some("-7"));
    assert_eq!(text("t"), Some("true"));
    assert_eq!(text("f"), Some("false"));
    assert_eq!(text("z"), Some(""));
    assert_eq!(text("a"), Some(""));
    assert_eq!(text("o"), Some(""));
}

#[test]
fn headers_that_are_no_object_are_refused() {
    for text in ["[]", "null", "7", "{", " "] {
        match parse_headers(text) {
            Err(HeadersError::NotAnObject(complaint)) => assert!(!complaint.is_empty()),
            Ok(_) => panic!("taken: {}", text),
        }
    }
}

#[test]
fn later_header_counts() {
    let members = vec![
        ("a".to_owned(), HeaderValue::Text("1".to_owned())),
        ("b".to_owned(), HeaderValue::Number("2".to_owned())),
        ("a".to_owned(), HeaderValue::Bool(true)),
        ("c".to_owned(), HeaderValue::Null),
        ("d".to_owned(), HeaderValue::Compound),
    ];
    let headers = headers_of(&members);
    assert_eq!(headers.len(), 4);
    assert_eq!(headers.get("a").map(String::as_str), Some("true"));
    assert_eq!(headers.get("b").map(String::as_str), Some("2"));
    assert_eq!(headers.get("c").map(String::as_str), Some(""));
    assert_eq!(headers.get("d").map(String::as_str), Some(""));
}

#[test]
fn log_filter_is_trimmed_and_tried() {
    assert_eq!(requested_filter(" debug\n"), Some("debug"));
    assert_eq!(requested_filter("webtransport=debug,addin1c=info"), Some("webtransport=debug,addin1c=info"));
    assert_eq!(requested_filter("off"), Some("off"));
    assert_eq!(requested_filter("   "), None);
    assert_eq!(requested_filter(""), None);
    assert_eq!(requested_filter("a=b=c=d"), None);
}

#[test]
fn filter_is_chosen_where_it_was_taken() {
    assert_eq!(choose_filter("info", true), Some("info"));
    assert_eq!(choose_filter("info", false), None);
    assert_eq!(choose_filter("", true), None);
}

#[test]
fn only_text_and_close_frames_reach_the_tunnel() {
    assert_eq!(
        accept_frame(WsFrame::Text("a".to_owned())),
        Some(TextOrClose::Text("a".to_owned()))
    );
    assert_eq!(accept_frame(WsFrame::Close), Some(TextOrClose::Close));
    assert_eq!(accept_frame(WsFrame::Other), None);
}

#[test]
fn connector_keeps_its_address() {
    let connector = WsConnector::new("ws://127.0.0.1:1/sessions".to_owned());
    assert_eq!(connector.url(), "ws://127.0.0.1:1/sessions");
    assert_eq!(CONNECT_TIMEOUT_MS, 5000);
}

#[test]
fn session_runs_once_at_a_time() {
    let mut state = SessionState::default();
    assert_eq!(state.check_start(), Err(SessionError::NotInitialized));
    assert_eq!(state.check_send(), Err(SessionError::NotRunning));
    state.init();
    assert_eq!(state.check_start(), Ok(()));
    let request = state.start("ws://x/".to_owned(), "trace".to_owned());
    assert_eq!(request.url, "ws://x/");
    assert_eq!(request.correlation_id.as_deref(), Some("trace"));
    assert_eq!(state.check_start(), Err(SessionError::AlreadyRunning));
    assert_eq!(state.check_send(), Ok(()));
    assert!(state.stop());
    assert!(!state.stop());
    assert_eq!(state.check_send(), Err(SessionError::NotRunning));
    assert_eq!(state.check_start(), Ok(()));
    assert!(state.start("ws://x/".to_owned(), String::new()).correlation_id.is_none());
}

#[test]
fn running_is_reported_before_a_missing_connection() {
    let state = SessionState { initialized: false, running: true, last_error: None };
    assert_eq!(state.check_start(), Err(SessionError::AlreadyRunning));
}

#[test]
fn session_errors_have_their_texts() {
    assert_eq!(SessionError::AlreadyRunning.message(), "Сессионная интеграция уже запущена");
    assert_eq!(
        SessionError::NotInitialized.message(),
        "Connection недоступен — addin не инициализирован"
    );
    assert_eq!(SessionError::NotRunning.message(), "Сессионная интеграция не запущена");
    assert_eq!(SessionError::Send(SendError::Closed).message(), "send: Closed");
}

#[test]
fn send_outcome_passes_the_error_on() {
    assert_eq!(send_outcome(Ok(())), Ok(()));
    assert_eq!(send_outcome(Err(SendError::Closed)), Err(SessionError::Send(SendError::Closed)));
}

#[test]
fn last_error_is_kept_until_the_next_call() {
    let mut state = SessionState::new();
    assert_eq!(state.error_text(), "");
    state.save_error(Some("boom".to_owned()));
    assert_eq!(state.error_text(), "boom");
    state.save_error(None);
    assert_eq!(state.error_text(), "");
}

#[test]
fn filter_that_would_be_cut_inside_a_character_is_not_tried() {
    for text in [
        "warn, \u{44b}=debug",
        "warn,  \u{44b}=debug",
        "warn, [\u{44b}]",
        "warn, x\u{44b}[span]",
        "warn, [s{\u{44b}}]",
        "warn,\u{3000}a=debug",
    ] {
        assert!(!is_safe_to_try(text), "{}", text);
        assert_eq!(requested_filter(text), None);
    }
}

#[test]
fn filter_that_is_cut_between_characters_is_tried() {
    for text in [
        "info,  [\u{e9}]",
        "warn,\u{44b}=debug",
        "\u{44b}=debug, warn",
        "warn, a=debug",
        "warn, \u{44b}",
        "warn, [span]=debug",
        "warn, [s{f}]=debug",
    ] {
        assert!(is_safe_to_try(text), "{}", text);
    }
    assert!(is_safe_to_try(""));
    for text in ["info,  [\u{e9}]", "\u{44b}=debug, warn", "warn, \u{44b}"] {
        assert_eq!(requested_filter(text), Some(text));
    }
}
