use std::cell::RefCell;
use std::rc::Rc;
use std::time::Instant;
use web_transport::addin_host::{
    preview, remaining_wait, AddinHost, EmitPacer, MockAddinHost, PacingSleeper, COMPONENT_NAME,
    EXTERNAL_EVENT_MIN_INTERVAL,
};

const MILLISECOND: u128 = 1_000_000;
const SECOND: u128 = 1_000_000_000;

/// Does not wait, and keeps the waits that were asked for.
#[derive(Default)]
struct RecordingSleeper {
    calls: Vec<u128>,
}

impl PacingSleeper for RecordingSleeper {
    fn sleep(&mut self, nanos: u128) {
        self.calls.push(nanos);
    }
}

#[test]
fn mock_records_events_in_order() {
    let mut host = MockAddinHost::new();
    assert!(host.external_event("WS_INCOMING", "{\"a\":1}"));
    assert!(host.external_event("MCP_MESSAGE", "{\"b\":2}"));

    let events = host.events();
    assert_eq!(events.len(), 2);
    assert_eq!(events[0].0, "WS_INCOMING");
    assert_eq!(events[0].1, "{\"a\":1}");
    assert_eq!(events[1].0, "MCP_MESSAGE");
}

#[test]
fn mock_returns_false_when_queue_full() {
    let mut host = MockAddinHost::new();
    host.set_queue_full(true);
    assert!(!host.external_event("WS_INCOMING", "ignored"));
    assert!(host.events().is_empty());

    host.set_queue_full(false);
    assert!(host.external_event("WS_INCOMING", "{}"));
    assert_eq!(host.events().len(), 1);
}

#[test]
fn mock_clear_drops_buffered_events() {
    let mut host = MockAddinHost::new();
    host.external_event("E1", "p1");
    host.external_event("E2", "p2");
    host.clear();
    assert!(host.events().is_empty());

    host.external_event("E3", "p3");
    assert_eq!(host.events(), vec![("E3".to_owned(), "p3".to_owned())]);
}

#[test]
fn mock_is_send_sync() {
    fn assert_send_sync<T: Send + Sync>() {}
    assert_send_sync::<MockAddinHost>();
}

#[test]
fn dyn_addin_host_dispatch_works() {
    let mut host: Box<dyn AddinHost> = Box::new(MockAddinHost::new());
    assert!(host.external_event("X", "y"));
}

#[test]
fn pacer_first_call_does_not_sleep() {
    let mut pacer = EmitPacer::new(100 * MILLISECOND);
    let mut sleeper = RecordingSleeper::default();
    let (waited, _) = pacer.run(&mut sleeper, || ());
    assert_eq!(waited, 0);
    assert!(sleeper.calls.is_empty());
}

#[test]
fn pacer_second_call_sleeps_remaining_interval() {
    let mut pacer = EmitPacer::new(60 * SECOND);
    let mut sleeper = RecordingSleeper::default();
    pacer.run(&mut sleeper, || ());
    let (waited, _) = pacer.run(&mut sleeper, || ());
    assert!(waited > 0);
    assert!(waited <= 60 * SECOND);
    assert_eq!(sleeper.calls.len(), 1);
    assert_eq!(sleeper.calls[0], waited);
}

#[test]
fn pacer_skips_sleep_when_interval_already_passed() {
    let mut pacer = EmitPacer::new(0);
    let mut sleeper = RecordingSleeper::default();
    pacer.run(&mut sleeper, || ());
    let (waited, _) = pacer.run(&mut sleeper, || ());
    assert_eq!(waited, 0);
    assert!(sleeper.calls.is_empty());
}

#[test]
fn pacer_op_result_is_returned() {
    let mut pacer = EmitPacer::new(10 * MILLISECOND);
    let mut sleeper = RecordingSleeper::default();
    let (_, value) = pacer.run(&mut sleeper, || 42);
    assert_eq!(value, 42);
}

#[test]
fn pacer_measures_from_the_last_delivery() {
    let mut pacer = EmitPacer::new(100 * MILLISECOND);
    let mut sleeper = RecordingSleeper::default();
    let (first, _) = pacer.run_after(None, &mut sleeper, || ());
    let (second, _) = pacer.run_after(Some(30 * MILLISECOND), &mut sleeper, || ());
    let (third, _) = pacer.run_after(Some(100 * MILLISECOND), &mut sleeper, || ());
    let (fourth, value) = pacer.run_after(Some(0), &mut sleeper, || "sent");
    assert_eq!(first, 0);
    assert_eq!(second, 70 * MILLISECOND);
    assert_eq!(third, 0);
    assert_eq!(fourth, 100 * MILLISECOND);
    assert_eq!(value, "sent");
    assert_eq!(sleeper.calls, vec![70 * MILLISECOND, 100 * MILLISECOND]);
}

#[test]
fn pacer_runs_without_an_interval_by_default() {
    let mut pacer = EmitPacer::default();
    let mut sleeper = RecordingSleeper::default();
    pacer.run(&mut sleeper, || ());
    assert_eq!(pacer.run(&mut sleeper, || 7), (0, 7));
}

#[test]
fn wait_makes_up_the_interval() {
    assert_eq!(remaining_wait(150, None), 0);
    assert_eq!(remaining_wait(150, Some(0)), 150);
    assert_eq!(remaining_wait(150, Some(149)), 1);
    assert_eq!(remaining_wait(150, Some(150)), 0);
    assert_eq!(remaining_wait(150, Some(u128::MAX)), 0);
    assert_eq!(remaining_wait(0, Some(0)), 0);
}

#[test]
fn platform_gets_events_a_hundred_and_fifty_milliseconds_apart() {
    assert_eq!(EXTERNAL_EVENT_MIN_INTERVAL, 150 * MILLISECOND);
    assert_eq!(COMPONENT_NAME, "WebTransport");
}

#[test]
fn full_queue_and_clearing_are_independent() {
    let mut host = MockAddinHost::default();
    host.external_event("E1", "p1");
    host.set_queue_full(true);
    host.clear();
    assert!(!host.external_event("E2", "p2"));
    host.set_queue_full(false);
    assert!(host.external_event("E3", "p3"));
    assert_eq!(host.events(), vec![("E3".to_owned(), "p3".to_owned())]);
    assert_eq!(host.events().len(), 1);
}

#[test]
fn preview_shows_a_short_payload_whole() {
    let exact = "я".repeat(200);
    assert_eq!(preview(""), "");
    assert_eq!(preview("abc"), "abc");
    assert_eq!(preview(&exact), exact);
}

#[test]
fn preview_cuts_a_long_payload_by_characters() {
    let long = "я".repeat(201);
    assert_eq!(preview(&long), "я".repeat(200) + "…");
}

/// Writes its waits into a log that others write into, too.
struct LoggingSleeper {
    log: Rc<RefCell<Vec<String>>>,
}

impl PacingSleeper for LoggingSleeper {
    fn sleep(&mut self, nanos: u128) {
        self.log.borrow_mut().push(format!("waited {}", nanos));
    }
}

#[test]
fn pacer_waits_before_the_delivery() {
    let log: Rc<RefCell<Vec<String>>> = Rc::new(RefCell::new(Vec::new()));
    let mut sleeper = LoggingSleeper { log: log.clone() };
    let mut pacer = EmitPacer::new(100);
    pacer.run_after(None, &mut sleeper, || log.borrow_mut().push("first".to_owned()));
    pacer.run_after(Some(40), &mut sleeper, || log.borrow_mut().push("second".to_owned()));
    pacer.run_after(Some(100), &mut sleeper, || log.borrow_mut().push("third".to_owned()));
    assert_eq!(log.borrow().join(","), "first,waited 60,second,third");
}

#[test]
fn pacer_by_the_clock_waits_before_the_delivery() {
    let log: Rc<RefCell<Vec<String>>> = Rc::new(RefCell::new(Vec::new()));
    let mut sleeper = LoggingSleeper { log: log.clone() };
    let mut pacer = EmitPacer::new(3600 * SECOND);
    pacer.run(&mut sleeper, || log.borrow_mut().push("first".to_owned()));
    pacer.run(&mut sleeper, || log.borrow_mut().push("second".to_owned()));
    let log = log.borrow();
    assert_eq!(log.len(), 3);
    assert_eq!(log[0], "first");
    assert!(log[1].starts_with("waited "));
    assert_eq!(log[2], "second");
}

#[test]
fn pacer_counts_from_the_end_of_a_delivery() {
    let interval = 3600 * SECOND;
    let mut pacer = EmitPacer::new(interval);
    let mut sleeper = RecordingSleeper::default();
    let (_, took) = pacer.run(&mut sleeper, || {
        let start = Instant::now();
        while start.elapsed().as_nanos() < 300 * MILLISECOND {}
        start.elapsed().as_nanos()
    });
    let (waited, _) = pacer.run(&mut sleeper, || ());
    assert!(took >= 300 * MILLISECOND);
    assert!(waited > interval - took);
    assert!(waited <= interval);
}
