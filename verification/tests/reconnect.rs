use web_transport::addin_host::MockAddinHost;
use web_transport::reconnect::{
    FinalOutcome, Phase, ReconnectAction, ReconnectEvent, Reconnector, StateEmitter, StateNotice,
    EVENT_RECONNECT_STATE, NOTICE_PAUSE_MS,
};
use web_transport::tunnel::{step, RunOutcome, TextOrClose, TunnelAction, TunnelEvent};

/// Hands an event to a reconnector, publishes its notices, and returns what to do.
fn take(
    reconnector: &mut Reconnector,
    event: ReconnectEvent,
    emitter: &mut StateEmitter<MockAddinHost>,
) -> ReconnectAction {
    assert!(reconnector.expects(&event));
    let step = reconnector.step(event);
    for notice in step.notices.iter() {
        emitter.publish(notice);
    }
    step.action
}

fn emitter() -> StateEmitter<MockAddinHost> {
    StateEmitter { host: MockAddinHost::new() }
}

fn due() -> ReconnectEvent {
    ReconnectEvent::Due { cancelled: false }
}

fn refused() -> ReconnectEvent {
    ReconnectEvent::ConnectFailed("\"connect refused\"".to_owned())
}

fn states_of(emitter: &StateEmitter<MockAddinHost>) -> Vec<String> {
    let mut states: Vec<String> = Vec::new();
    for (name, payload) in emitter.host.events() {
        if name == EVENT_RECONNECT_STATE {
            states.push(payload);
        }
    }
    states
}

#[test]
fn give_up_after_max_attempts() {
    let mut e = emitter();
    let mut r = Reconnector::new(Some(3));
    for attempt in 1..=2 {
        assert_eq!(take(&mut r, due(), &mut e), ReconnectAction::Connect);
        assert_eq!(take(&mut r, refused(), &mut e), ReconnectAction::Backoff { attempt });
    }
    assert_eq!(take(&mut r, due(), &mut e), ReconnectAction::Connect);
    assert_eq!(take(&mut r, refused(), &mut e), ReconnectAction::Finish(FinalOutcome::GiveUp));

    let states = states_of(&e);
    assert_eq!(states.iter().filter(|s| s.contains("connecting")).count(), 3);
    assert_eq!(states.iter().filter(|s| s.contains("disconnected")).count(), 3);
    assert_eq!(states.iter().filter(|s| s.contains("give_up")).count(), 1);
    assert_eq!(states[6], "{\"state\":\"give_up\",\"reason\":\"max attempts exceeded\"}");
}

#[test]
fn reconnect_after_close_then_cancel() {
    let mut e = emitter();
    let mut r = Reconnector::new(Some(5));
    assert_eq!(take(&mut r, due(), &mut e), ReconnectAction::Connect);
    assert_eq!(take(&mut r, ReconnectEvent::Connected, &mut e), ReconnectAction::RunTunnel);
    let hello = TunnelEvent::Frame(TextOrClose::Text("hello".to_owned()));
    assert_eq!(step(hello, None, &mut e.host), TunnelAction::Wait);
    let outcome = match step(TunnelEvent::Frame(TextOrClose::Close), None, &mut e.host) {
        TunnelAction::Finish { outcome, .. } => outcome,
        other => panic!("not ended: {:?}", other),
    };
    assert_eq!(outcome, RunOutcome::Closed);
    assert_eq!(
        take(&mut r, ReconnectEvent::TunnelEnded(outcome), &mut e),
        ReconnectAction::Backoff { attempt: 0 }
    );
    assert_eq!(take(&mut r, due(), &mut e), ReconnectAction::Connect);
    assert_eq!(take(&mut r, ReconnectEvent::Connected, &mut e), ReconnectAction::RunTunnel);
    assert_eq!(
        take(&mut r, ReconnectEvent::TunnelEnded(RunOutcome::Cancelled), &mut e),
        ReconnectAction::Finish(FinalOutcome::Cancelled)
    );
    let evs = e.host.events();
    let incoming = evs.iter().filter(|(n, _)| n == "WS_INCOMING").count();
    assert_eq!(incoming, 1);
    assert_eq!(
        states_of(&e),
        vec![
            "{\"state\":\"connecting\",\"attempt\":1}".to_owned(),
            "{\"state\":\"connected\"}".to_owned(),
            "{\"state\":\"disconnected\",\"reason\":\"Closed\"}".to_owned(),
            "{\"state\":\"connecting\",\"attempt\":1}".to_owned(),
            "{\"state\":\"connected\"}".to_owned(),
        ]
    );
}

#[test]
fn cancel_during_initial_connect_loop() {
    let mut e = emitter();
    let mut r = Reconnector::new(None);
    take(&mut r, due(), &mut e);
    take(&mut r, refused(), &mut e);
    assert_eq!(
        take(&mut r, ReconnectEvent::Cancelled, &mut e),
        ReconnectAction::Finish(FinalOutcome::Cancelled)
    );
    assert_eq!(states_of(&e).len(), 2);
}

#[test]
fn cancel_is_quiet_wherever_it_is_noticed() {
    let mut e = emitter();
    let mut waiting = Reconnector::new(None);
    assert_eq!(
        take(&mut waiting, ReconnectEvent::Due { cancelled: true }, &mut e),
        ReconnectAction::Finish(FinalOutcome::Cancelled)
    );
    assert!(states_of(&e).is_empty());
    let mut connecting = Reconnector::new(None);
    take(&mut connecting, due(), &mut e);
    assert_eq!(
        take(&mut connecting, ReconnectEvent::Cancelled, &mut e),
        ReconnectAction::Finish(FinalOutcome::Cancelled)
    );
    assert_eq!(states_of(&e).len(), 1);
    assert_eq!(connecting.phase, Phase::Done);
}

#[test]
fn dropped_outbound_ends_the_run() {
    let mut e = emitter();
    let mut r = Reconnector::new(None);
    take(&mut r, due(), &mut e);
    take(&mut r, ReconnectEvent::Connected, &mut e);
    assert_eq!(
        take(&mut r, ReconnectEvent::TunnelEnded(RunOutcome::OutboundDropped), &mut e),
        ReconnectAction::Finish(FinalOutcome::OutboundDropped)
    );
    assert_eq!(states_of(&e)[2], "{\"state\":\"disconnected\",\"reason\":\"OutboundDropped\"}");
}

#[test]
fn lost_sessions_are_told_with_their_reason() {
    let mut e = emitter();
    let mut r = Reconnector::new(Some(1));
    for outcome in [RunOutcome::InboundError, RunOutcome::SinkError] {
        take(&mut r, due(), &mut e);
        take(&mut r, ReconnectEvent::Connected, &mut e);
        assert_eq!(
            take(&mut r, ReconnectEvent::TunnelEnded(outcome), &mut e),
            ReconnectAction::Backoff { attempt: 0 }
        );
    }
    let states = states_of(&e);
    assert_eq!(states[2], "{\"state\":\"disconnected\",\"reason\":\"InboundError\"}");
    assert_eq!(states[5], "{\"state\":\"disconnected\",\"reason\":\"SinkError\"}");
}

#[test]
fn session_clears_the_count_of_failures() {
    let mut e = emitter();
    let mut r = Reconnector::new(Some(2));
    take(&mut r, due(), &mut e);
    take(&mut r, refused(), &mut e);
    take(&mut r, due(), &mut e);
    take(&mut r, ReconnectEvent::Connected, &mut e);
    take(&mut r, ReconnectEvent::TunnelEnded(RunOutcome::Closed), &mut e);
    take(&mut r, due(), &mut e);
    assert_eq!(take(&mut r, refused(), &mut e), ReconnectAction::Backoff { attempt: 1 });
    assert_eq!(states_of(&e)[2], "{\"state\":\"connecting\",\"attempt\":2}");
    assert_eq!(states_of(&e)[5], "{\"state\":\"connecting\",\"attempt\":1}");
}

#[test]
fn without_a_limit_failures_never_end_the_run() {
    let mut e = emitter();
    let mut r = Reconnector::new(None);
    for attempt in 1..=30 {
        take(&mut r, due(), &mut e);
        assert_eq!(take(&mut r, refused(), &mut e), ReconnectAction::Backoff { attempt });
    }
    assert_eq!(states_of(&e)[58], "{\"state\":\"connecting\",\"attempt\":30}");
}

#[test]
fn count_of_attempts_saturates() {
    let mut e = emitter();
    let mut r = Reconnector { attempt: u32::MAX, phase: Phase::Idle, max_attempts: None };
    take(&mut r, due(), &mut e);
    assert_eq!(r.attempt, u32::MAX);
    assert_eq!(states_of(&e)[0], "{\"state\":\"connecting\",\"attempt\":4294967295}");
}

#[test]
fn limit_of_zero_gives_up_after_the_first_failure() {
    let mut e = emitter();
    let mut r = Reconnector::new(Some(0));
    take(&mut r, due(), &mut e);
    assert_eq!(take(&mut r, refused(), &mut e), ReconnectAction::Finish(FinalOutcome::GiveUp));
}

#[test]
fn reason_of_a_failure_is_a_json_string() {
    let mut e = emitter();
    let mut r = Reconnector::new(None);
    take(&mut r, due(), &mut e);
    take(&mut r, refused(), &mut e);
    let payload = states_of(&e)[1].clone();
    assert_eq!(
        payload,
        "{\"state\":\"disconnected\",\"reason\":\"ConnectError: \\\"connect refused\\\"\"}"
    );
    let v: serde_json::Value = serde_json::from_str(&payload).unwrap();
    assert_eq!(v["reason"], "ConnectError: \"connect refused\"");
}

#[test]
fn only_fitting_events_are_expected() {
    let mut r = Reconnector::new(None);
    assert!(r.expects(&due()));
    assert!(!r.expects(&ReconnectEvent::Connected));
    assert!(!r.expects(&ReconnectEvent::TunnelEnded(RunOutcome::Closed)));
    r.step(due());
    assert!(r.expects(&refused()));
    assert!(!r.expects(&due()));
    r.step(ReconnectEvent::Connected);
    assert!(r.expects(&ReconnectEvent::TunnelEnded(RunOutcome::Closed)));
    assert!(!r.expects(&ReconnectEvent::Cancelled));
    r.step(ReconnectEvent::TunnelEnded(RunOutcome::Cancelled));
    assert!(!r.expects(&due()));
    assert!(!r.expects(&ReconnectEvent::Cancelled));
}

#[test]
fn full_queue_does_not_stop_notices() {
    let mut e = emitter();
    e.host.set_queue_full(true);
    e.publish(&StateNotice::Connected);
    e.host.set_queue_full(false);
    e.connecting(12);
    e.disconnected("a\tb");
    e.give_up("enough");
    assert_eq!(
        states_of(&e),
        vec![
            "{\"state\":\"connecting\",\"attempt\":12}".to_owned(),
            "{\"state\":\"disconnected\",\"reason\":\"a\\tb\"}".to_owned(),
            "{\"state\":\"give_up\",\"reason\":\"enough\"}".to_owned(),
        ]
    );
    assert_eq!(NOTICE_PAUSE_MS, 100);
}
