use tokio::sync::mpsc::unbounded_channel;
use web_transport::addin_host::MockAddinHost;
use web_transport::tunnel::{
    dispatch_incoming, dispatch_incoming_correlated, send_result, step, OutboundSender, RunOutcome,
    SendError, TextOrClose, TunnelAction, TunnelEvent, EVENT_INCOMING,
};

fn text(payload: &str) -> TunnelEvent {
    TunnelEvent::Frame(TextOrClose::Text(payload.to_owned()))
}

fn finish(outcome: RunOutcome, close_sink: bool) -> TunnelAction {
    TunnelAction::Finish { outcome, close_sink }
}

/// Hands the events to a tunnel until it ends. Returns how it ended and what it wrote.
fn pump(
    events: Vec<TunnelEvent>,
    correlation_id: Option<&str>,
    host: &mut MockAddinHost,
) -> (Option<RunOutcome>, Vec<String>) {
    let mut written: Vec<String> = Vec::new();
    for event in events {
        match step(event, correlation_id, host) {
            TunnelAction::Wait => {}
            TunnelAction::Send(text) => written.push(text),
            TunnelAction::Finish { outcome, .. } => return (Some(outcome), written),
        }
    }
    (None, written)
}

#[test]
fn dispatch_incoming_emits_ws_incoming_event() {
    let mut h = MockAddinHost::new();
    assert!(dispatch_incoming("{\"jsonrpc\":\"2.0\"}", &mut h));
    let evs = h.events();
    assert_eq!(evs.len(), 1);
    assert_eq!(evs[0].0, EVENT_INCOMING);
    assert_eq!(evs[0].1, "{\"jsonrpc\":\"2.0\"}");
}

#[test]
fn dispatch_incoming_correlated_wraps_payload_in_envelope() {
    let mut h = MockAddinHost::new();
    let inner = "{\"jsonrpc\":\"2.0\",\"id\":1}";
    assert!(dispatch_incoming_correlated(inner, "trace-7", &mut h));
    let evs = h.events();
    assert_eq!(evs.len(), 1);
    assert_eq!(evs[0].0, EVENT_INCOMING);
    let v: serde_json::Value = serde_json::from_str(&evs[0].1).unwrap();
    assert_eq!(v["correlation_id"], "trace-7");
    assert_eq!(v["payload"], inner);
}

#[test]
fn dispatch_incoming_returns_false_on_queue_overflow() {
    let mut h = MockAddinHost::new();
    h.set_queue_full(true);
    assert!(!dispatch_incoming("payload", &mut h));
}

#[test]
fn pump_with_correlation_uses_envelope_for_each_frame() {
    let mut h = MockAddinHost::new();
    let frames = vec![text("a"), text("b"), TunnelEvent::Frame(TextOrClose::Close)];
    let (outcome, _) = pump(frames, Some("trace-x"), &mut h);
    assert_eq!(outcome, Some(RunOutcome::Closed));
    let evs = h.events();
    assert_eq!(evs.len(), 2);
    for (i, payload) in ["a", "b"].iter().enumerate() {
        let v: serde_json::Value = serde_json::from_str(&evs[i].1).unwrap();
        assert_eq!(v["correlation_id"], "trace-x");
        assert_eq!(v["payload"], *payload);
    }
}

#[test]
fn pump_forwards_text_frames_then_closes() {
    let mut h = MockAddinHost::new();
    let frames = vec![text("a"), text("b"), TunnelEvent::Frame(TextOrClose::Close)];
    let (outcome, _) = pump(frames, None, &mut h);
    assert_eq!(outcome, Some(RunOutcome::Closed));
    let evs = h.events();
    assert_eq!(evs.len(), 2);
    assert_eq!(evs[0].1, "a");
    assert_eq!(evs[1].1, "b");
}

#[test]
fn pump_writes_outbound_messages_to_sink() {
    let mut h = MockAddinHost::new();
    let events = vec![
        TunnelEvent::Outgoing("ping".to_owned()),
        TunnelEvent::Outgoing("pong".to_owned()),
        TunnelEvent::Cancelled,
    ];
    let (outcome, written) = pump(events, None, &mut h);
    assert_eq!(written, vec!["ping".to_owned(), "pong".to_owned()]);
    assert_eq!(outcome, Some(RunOutcome::Cancelled));
    assert!(h.events().is_empty());
}

#[test]
fn pump_returns_inbound_error_on_stream_error() {
    let mut h = MockAddinHost::new();
    let (outcome, _) = pump(vec![text("a"), TunnelEvent::StreamFailed], None, &mut h);
    assert_eq!(outcome, Some(RunOutcome::InboundError));
    assert_eq!(h.events().len(), 1);
}

#[test]
fn pump_returns_outbound_dropped_when_sender_closes() {
    let mut h = MockAddinHost::new();
    let (outcome, _) = pump(vec![TunnelEvent::OutboundDropped], None, &mut h);
    assert_eq!(outcome, Some(RunOutcome::OutboundDropped));
}

#[test]
fn pump_continues_on_queue_overflow() {
    let mut h = MockAddinHost::new();
    h.set_queue_full(true);
    let frames = vec![text("dropped"), TunnelEvent::Frame(TextOrClose::Close)];
    let (outcome, _) = pump(frames, None, &mut h);
    assert_eq!(outcome, Some(RunOutcome::Closed));
    assert!(h.events().is_empty());
}

#[test]
fn outbound_sender_send_returns_closed_after_drop() {
    let (tx, rx) = unbounded_channel::<String>();
    let s = OutboundSender::new(tx);
    drop(rx);
    assert_eq!(s.send("x".to_owned()), Err(SendError::Closed));
}

#[test]
fn outbound_sender_queues_in_order_through_every_handle() {
    let (tx, mut rx) = unbounded_channel::<String>();
    let first = OutboundSender::new(tx);
    let second = first.clone();
    assert_eq!(first.send("a".to_owned()), Ok(()));
    assert_eq!(second.send("b".to_owned()), Ok(()));
    assert_eq!(rx.try_recv().ok().as_deref(), Some("a"));
    assert_eq!(rx.try_recv().ok().as_deref(), Some("b"));
}

#[test]
fn send_result_tells_a_closed_queue() {
    assert_eq!(send_result(Ok(())), Ok(()));
    assert_eq!(send_result(Err("back".to_owned())), Err(SendError::Closed));
}

#[test]
fn each_event_has_its_action() {
    let mut h = MockAddinHost::new();
    assert_eq!(step(TunnelEvent::Cancelled, None, &mut h), finish(RunOutcome::Cancelled, true));
    assert_eq!(step(TunnelEvent::StreamEnded, None, &mut h), finish(RunOutcome::Closed, false));
    assert_eq!(step(TunnelEvent::StreamFailed, None, &mut h), finish(RunOutcome::InboundError, false));
    assert_eq!(step(TunnelEvent::SendFailed, None, &mut h), finish(RunOutcome::SinkError, false));
    assert_eq!(
        step(TunnelEvent::OutboundDropped, None, &mut h),
        finish(RunOutcome::OutboundDropped, false)
    );
    assert_eq!(
        step(TunnelEvent::Frame(TextOrClose::Close), None, &mut h),
        finish(RunOutcome::Closed, false)
    );
    assert_eq!(
        step(TunnelEvent::Outgoing("m".to_owned()), None, &mut h),
        TunnelAction::Send("m".to_owned())
    );
    assert!(h.events().is_empty());
    assert_eq!(step(text("t"), None, &mut h), TunnelAction::Wait);
    assert_eq!(h.events(), vec![("WS_INCOMING".to_owned(), "t".to_owned())]);
}

#[test]
fn envelope_is_written_in_this_order() {
    let mut h = MockAddinHost::new();
    step(text("say \"hi\"\n"), Some("id\\1"), &mut h);
    assert_eq!(
        h.events()[0].1,
        "{\"correlation_id\":\"id\\\\1\",\"payload\":\"say \\\"hi\\\"\\n\"}"
    );
}

#[test]
fn frames_are_cloned_whole() {
    let frame = TextOrClose::Text("a".to_owned());
    assert_eq!(frame.clone(), frame);
    assert_eq!(TextOrClose::Close.clone(), TextOrClose::Close);
}

#[test]
fn addin_frames_reach_1c_as_they_came() {
    let mut h = MockAddinHost::new();
    let p = r#"{"jsonrpc":"2.0","id":1,"method":"addin.spawn","params":{}}"#;
    let (outcome, written) =
        pump(vec![text(p), TunnelEvent::Frame(TextOrClose::Close)], None, &mut h);
    assert_eq!(outcome, Some(RunOutcome::Closed));
    assert!(written.is_empty());
    assert_eq!(h.events(), vec![("WS_INCOMING".to_owned(), p.to_owned())]);
}

#[test]
fn envelope_reads_back_whatever_it_carries() {
    let awkward = "{\"a\":\"\\\\\"}\n\t\u{1}\u{1f}\u{7f}/\u{44b}\u{1f600}";
    let mut h = MockAddinHost::new();
    assert!(dispatch_incoming_correlated(awkward, "\"\\", &mut h));
    let v: serde_json::Value = serde_json::from_str(&h.events()[0].1).unwrap();
    assert_eq!(v.as_object().unwrap().len(), 2);
    assert_eq!(v["correlation_id"], "\"\\");
    assert_eq!(v["payload"], awkward);
}

#[test]
fn failed_write_ends_the_run_with_the_last_message() {
    let mut h = MockAddinHost::new();
    let events = vec![
        TunnelEvent::Outgoing("a".to_owned()),
        text("between"),
        TunnelEvent::Outgoing("b".to_owned()),
        TunnelEvent::SendFailed,
        TunnelEvent::Outgoing("c".to_owned()),
    ];
    let (outcome, given) = pump(events, None, &mut h);
    assert_eq!(outcome, Some(RunOutcome::SinkError));
    assert_eq!(given, vec!["a".to_owned(), "b".to_owned()]);
}
