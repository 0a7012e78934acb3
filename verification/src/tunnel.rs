//! The two-way tunnel between the session manager and the 1C client.
//!
//! Frames from the manager are offered to 1C as events, messages from 1C go to the manager. What is
//! read from the transport comes in as a [`TunnelEvent`]; [`step`] delivers what is to be delivered
//! and says by a [`TunnelAction`] what the transport has to do next.
use tokio::sync::mpsc::UnboundedSender;
use vstd::prelude::*;

use crate::addin_host::AddinHost;
use crate::addin_host;
use crate::json;
use crate::text;

verus! {

/// The name of the 1C event that carries a message from the tunnel.
pub const EVENT_INCOMING: &'static str = "WS_INCOMING";

/// A frame that the tunnel carries. Other frames are dropped before they reach it.
#[derive(Debug, PartialEq, Eq)]
pub enum TextOrClose {
    Text(String),
    Close,
}

impl Clone for TextOrClose {
    fn clone(&self) -> (out: Self)
        ensures
            out == *self,
    {
        match self {
            TextOrClose::Text(text) => TextOrClose::Text(text.clone()),
            TextOrClose::Close => TextOrClose::Close,
        }
    }
}

/// Why a tunnel ended.
#[derive(Debug, Clone, Copy, PartialEq, Eq, Structural)]
pub enum RunOutcome {
    /// The owner asked for it.
    Cancelled,
    /// The other side sent a close frame or ended the stream.
    Closed,
    /// Reading failed; it may work again later.
    InboundError,
    /// The 1C side can send no more; there is no way on.
    OutboundDropped,
    /// Writing failed; it may work again later.
    SinkError,
}

/// Why a message was not queued.
#[derive(Debug, Clone, Copy, PartialEq, Eq, Structural)]
pub enum SendError {
    /// The tunnel has ended.
    Closed,
}

/// What comes from the transport, from the 1C side or from the owner.
#[derive(Debug)]
pub enum TunnelEvent {
    /// The owner asked the tunnel to end.
    Cancelled,
    /// The manager sent a frame.
    Frame(TextOrClose),
    /// The manager's stream ended.
    StreamEnded,
    /// Reading from the manager failed.
    StreamFailed,
    /// The 1C side has a message for the manager.
    Outgoing(String),
    /// The 1C side can send no more.
    OutboundDropped,
    /// Writing to the manager failed.
    SendFailed,
}

/// What the transport has to do next.
#[derive(Debug, PartialEq, Eq)]
pub enum TunnelAction {
    /// Wait for the next event.
    Wait,
    /// Write this message to the manager, then wait; where writing fails, report
    /// [`TunnelEvent::SendFailed`].
    Send(String),
    /// End with this outcome, having closed the manager's side first where `close_sink` says so.
    Finish { outcome: RunOutcome, close_sink: bool },
}

/// The envelope of a message in a session with a correlation identifier. The message stays a plain
/// string inside it.
pub open spec fn envelope(correlation_id: Seq<char>, payload: Seq<char>) -> Seq<char> {
    "{\"correlation_id\":"@ + (json::json_string(correlation_id) + (",\"payload\":"@ + (
    json::json_string(payload) + "}"@)))
}

/// What 1C is offered for a message from the manager.
pub open spec fn incoming_payload(
    payload: Seq<char>,
    correlation_id: Option<Seq<char>>,
) -> Seq<char> {
    match correlation_id {
        Some(id) => envelope(id, payload),
        None => payload,
    }
}

/// That one event was offered to a host and no other, whatever the host answered.
pub open spec fn offered_once(
    before: Seq<addin_host::HostCall>,
    after: Seq<addin_host::HostCall>,
    event: Seq<char>,
    payload: Seq<char>,
) -> bool {
    &&& after.len() == before.len() + 1
    &&& after.drop_last() == before
    &&& after.last().event == event
    &&& after.last().payload == payload
}

/// That one event was offered to a host and no other, and that the host answered as it may.
pub open spec fn offered_to<H: AddinHost>(
    before: H,
    after: H,
    event: Seq<char>,
    payload: Seq<char>,
) -> bool {
    &&& offered_once(before.calls(), after.calls(), event, payload)
    &&& before.may_answer(after.calls().last().accepted)
    &&& addin_host::set_alike(before, after)
}

/// What the transport has to do after `event`.
pub open spec fn action_after(event: TunnelEvent) -> TunnelAction {
    match event {
        TunnelEvent::Cancelled => TunnelAction::Finish {
            outcome: RunOutcome::Cancelled,
            close_sink: true,
        },
        TunnelEvent::Frame(TextOrClose::Text(_)) => TunnelAction::Wait,
        TunnelEvent::Frame(TextOrClose::Close) => TunnelAction::Finish {
            outcome: RunOutcome::Closed,
            close_sink: false,
        },
        TunnelEvent::StreamEnded => TunnelAction::Finish {
            outcome: RunOutcome::Closed,
            close_sink: false,
        },
        TunnelEvent::StreamFailed => TunnelAction::Finish {
            outcome: RunOutcome::InboundError,
            close_sink: false,
        },
        TunnelEvent::Outgoing(text) => TunnelAction::Send(text),
        TunnelEvent::OutboundDropped => TunnelAction::Finish {
            outcome: RunOutcome::OutboundDropped,
            close_sink: false,
        },
        TunnelEvent::SendFailed => TunnelAction::Finish {
            outcome: RunOutcome::SinkError,
            close_sink: false,
        },
    }
}

/// What 1C is offered on `event`: one event for a text frame, nothing else.
pub open spec fn offers(
    before: Seq<addin_host::HostCall>,
    after: Seq<addin_host::HostCall>,
    event: TunnelEvent,
    correlation_id: Option<Seq<char>>,
) -> bool {
    match event {
        TunnelEvent::Frame(TextOrClose::Text(text)) => offered_once(
            before,
            after,
            EVENT_INCOMING@,
            incoming_payload(text@, correlation_id),
        ),
        _ => after == before,
    }
}

/// What becomes of a host on `event`: it is offered what [`offers`] says, answers as it may, and is
/// set as before.
pub open spec fn steps_to<H: AddinHost>(
    before: H,
    after: H,
    event: TunnelEvent,
    correlation_id: Option<Seq<char>>,
) -> bool {
    &&& offers(before.calls(), after.calls(), event, correlation_id)
    &&& addin_host::set_alike(before, after)
    &&& (event matches TunnelEvent::Frame(frame) && frame is Text) ==> before.may_answer(
        after.calls().last().accepted,
    )
}

/// The characters of an optional string slice.
pub open spec fn id_text(id: Option<&str>) -> Option<Seq<char>> {
    match id {
        Some(id) => Some(id@),
        None => None,
    }
}

/// Offers one message from the manager to 1C. Returns `false` where the platform's queue of events
/// is full; the connection is kept then.
pub fn dispatch_incoming<H: AddinHost>(payload: &str, host: &mut H) -> (accepted: bool)
    ensures
        final(host).calls() == old(host).calls().push(
            (addin_host::HostCall { event: EVENT_INCOMING@, payload: payload@, accepted }),
        ),
        offered_to(*old(host), *final(host), EVENT_INCOMING@, payload@),
{
    let ghost before = host.calls();
    let accepted: bool = host.external_event(EVENT_INCOMING, payload);
    assert(host.calls().drop_last() =~= before);
    accepted
}

/// Offers one message from the manager to 1C in an envelope with the correlation identifier.
pub fn dispatch_incoming_correlated<H: AddinHost>(
    payload: &str,
    correlation_id: &str,
    host: &mut H,
) -> (accepted: bool)
    ensures
        final(host).calls() == old(host).calls().push(
            (addin_host::HostCall {
                event: EVENT_INCOMING@,
                payload: envelope(correlation_id@, payload@),
                accepted,
            }),
        ),
        offered_to(
            *old(host),
            *final(host),
            EVENT_INCOMING@,
            envelope(correlation_id@, payload@),
        ),
{
    let mut text = "{\"correlation_id\":".to_owned();
    text.append(json::quote(correlation_id).as_str());
    text.append(",\"payload\":");
    text.append(json::quote(payload).as_str());
    text.append("}");
    assert(text@ =~= envelope(correlation_id@, payload@));
    let ghost before = host.calls();
    let accepted: bool = host.external_event(EVENT_INCOMING, text.as_str());
    assert(host.calls().drop_last() =~= before);
    accepted
}

/// Takes one event of a tunnel: offers to 1C what is for it, and says what to do next. A full queue
/// of events does not end the tunnel.
pub fn step<H: AddinHost>(
    event: TunnelEvent,
    correlation_id: Option<&str>,
    host: &mut H,
) -> (action: TunnelAction)
    ensures
        action == action_after(event),
        steps_to(*old(host), *final(host), event, id_text(correlation_id)),
{
    match event {
        TunnelEvent::Cancelled => TunnelAction::Finish {
            outcome: RunOutcome::Cancelled,
            close_sink: true,
        },
        TunnelEvent::Frame(TextOrClose::Text(payload)) => {
            let _accepted: bool = match correlation_id {
                Some(id) => dispatch_incoming_correlated(payload.as_str(), id, host),
                None => dispatch_incoming(payload.as_str(), host),
            };
            TunnelAction::Wait
        },
        TunnelEvent::Frame(TextOrClose::Close) | TunnelEvent::StreamEnded => TunnelAction::Finish {
            outcome: RunOutcome::Closed,
            close_sink: false,
        },
        TunnelEvent::StreamFailed => TunnelAction::Finish {
            outcome: RunOutcome::InboundError,
            close_sink: false,
        },
        TunnelEvent::Outgoing(text) => TunnelAction::Send(text),
        TunnelEvent::OutboundDropped => TunnelAction::Finish {
            outcome: RunOutcome::OutboundDropped,
            close_sink: false,
        },
        TunnelEvent::SendFailed => TunnelAction::Finish {
            outcome: RunOutcome::SinkError,
            close_sink: false,
        },
    }
}

/// `tokio::sync::mpsc::UnboundedSender`: the sending end of a channel, which nothing here looks
/// into.
#[verifier::external_type_specification]
#[verifier::external_body]
#[verifier::reject_recursive_types(T)]
pub struct ExUnboundedSender<T>(tokio::sync::mpsc::UnboundedSender<T>);

/// Puts a message into the channel with `tokio::sync::mpsc::UnboundedSender::send`. The channel takes
/// it as long as the receiving end is open, which the arguments do not show; where it does not take
/// it, the error hands the message back.
#[verifier::external_body]
fn channel_send(sender: &UnboundedSender<String>, text: String) -> (out: Result<(), String>)
    ensures
        out matches Err(back) ==> back == text,
{
    sender.send(text).map_err(|error| error.0)
}

/// `tokio::sync::mpsc::UnboundedSender::clone` gives another handle on the same channel, which does
/// all that the first one does.
pub assume_specification<T>[ <UnboundedSender<T> as Clone>::clone ](
    sender: &UnboundedSender<T>,
) -> (out: UnboundedSender<T>)
    ensures
        out == *sender,
;

/// Whether putting `text` into `channel` can be answered by `put`.
pub closed spec fn put_answers(
    channel: UnboundedSender<String>,
    text: String,
    put: Result<(), String>,
) -> bool {
    call_ensures(channel_send, (&channel, text), put)
}

/// What queueing a message returns, for the channel's answer.
pub open spec fn result_of_put(put: Result<(), String>) -> Result<(), SendError> {
    match put {
        Ok(_) => Ok(()),
        Err(_) => Err(SendError::Closed),
    }
}

/// The queue of messages from the 1C side to the manager.
pub struct OutboundSender {
    sender: UnboundedSender<String>,
}

impl OutboundSender {
    /// The channel behind this queue.
    pub closed spec fn channel(&self) -> UnboundedSender<String> {
        self.sender
    }

    /// A queue on a channel.
    pub fn new(sender: UnboundedSender<String>) -> (out: Self)
        ensures
            out.channel() == sender,
    {
        OutboundSender { sender }
    }

    /// Queues a message: puts this very message into this very channel, and returns what
    /// [`send_result`] makes of the answer. Whether the channel takes it depends on its receiving
    /// end alone.
    pub fn send(&self, text: String) -> (out: Result<(), SendError>)
        ensures
            exists|put: Result<(), String>| #[trigger]
                put_answers(self.channel(), text, put) && out == result_of_put(put),
    {
        let put = channel_send(&self.sender, text);
        assert(put_answers(self.channel(), text, put));
        send_result(put)
    }
}

impl Clone for OutboundSender {
    fn clone(&self) -> (out: Self)
        ensures
            out.channel() == self.channel(),
    {
        OutboundSender { sender: self.sender.clone() }
    }
}

/// What queueing a message returns, for what came of putting it into the channel: an error where it
/// came back, which means that the tunnel has ended.
pub fn send_result(put: Result<(), String>) -> (out: Result<(), SendError>)
    ensures
        out == result_of_put(put),
{
    match put {
        Ok(_) => Ok(()),
        Err(_) => Err(SendError::Closed),
    }
}

/// The events that a host was offered, without its answers.
pub open spec fn offered(calls: Seq<addin_host::HostCall>) -> Seq<(Seq<char>, Seq<char>)> {
    calls.map_values(|c: addin_host::HostCall| (c.event, c.payload))
}

/// The events that the text frames among `events` give rise to, in order.
pub open spec fn incoming_events(
    events: Seq<TunnelEvent>,
    correlation_id: Option<Seq<char>>,
) -> Seq<(Seq<char>, Seq<char>)>
    decreases events.len(),
{
    if events.len() == 0 {
        Seq::empty()
    } else {
        let earlier = incoming_events(events.drop_last(), correlation_id);
        match events.last() {
            TunnelEvent::Frame(TextOrClose::Text(text)) => earlier.push(
                (EVENT_INCOMING@, incoming_payload(text@, correlation_id)),
            ),
            _ => earlier,
        }
    }
}

/// Over a whole run, 1C is offered each text frame once, in the order in which the frames came, and
/// nothing else. `logs` holds what the host was offered before the first event and after each one.
pub proof fn law_frames_reach_1c_in_order(
    events: Seq<TunnelEvent>,
    logs: Seq<Seq<addin_host::HostCall>>,
    correlation_id: Option<Seq<char>>,
)
    requires
        logs.len() == events.len() + 1,
        forall|i: int|
            0 <= i < events.len() ==> offers(
                #[trigger] logs[i],
                logs[i + 1],
                events[i],
                correlation_id,
            ),
    ensures
        offered(logs.last()) == offered(logs[0]) + incoming_events(events, correlation_id),
    decreases events.len(),
{
    if events.len() == 0 {
        assert(offered(logs.last()) =~= offered(logs[0]) + incoming_events(events, correlation_id));
    } else {
        let n = events.len() - 1;
        let fewer = events.drop_last();
        let shorter = logs.drop_last();
        assert forall|i: int| 0 <= i < fewer.len() implies offers(
            #[trigger] shorter[i],
            shorter[i + 1],
            fewer[i],
            correlation_id,
        ) by {
            assert(offers(logs[i], logs[i + 1], events[i], correlation_id));
        }
        law_frames_reach_1c_in_order(fewer, shorter, correlation_id);
        assert(offers(logs[n], logs[n + 1], events[n], correlation_id));
        let before = offered(logs[n]);
        match events.last() {
            TunnelEvent::Frame(TextOrClose::Text(text)) => {
                let now = (EVENT_INCOMING@, incoming_payload(text@, correlation_id));
                assert(offered(logs[n + 1]) =~= before.push(now)) by {
                    assert forall|j: int| 0 <= j < before.len() implies offered(logs[n + 1])[j]
                        == before[j] by {
                        assert(logs[n + 1].drop_last()[j] == logs[n][j]);
                    }
                }
            },
            _ => {},
        }
        assert(offered(logs.last()) =~= offered(logs[0]) + incoming_events(events, correlation_id));
    }
}

/// What a host in memory holds: the events that it took and has not forgotten.
pub open spec fn held(host: addin_host::MockAddinHost) -> Seq<(Seq<char>, Seq<char>)> {
    addin_host::accepted_events(host.calls().skip(host.cleared_at()))
}

/// A host in memory holds an event that it is offered, unless its queue is full; then it holds what
/// it held.
pub proof fn law_mock_holds_what_it_is_offered(
    before: addin_host::MockAddinHost,
    after: addin_host::MockAddinHost,
    event: Seq<char>,
    payload: Seq<char>,
)
    requires
        0 <= before.cleared_at() <= before.calls().len(),
        offered_to(before, after, event, payload),
    ensures
        held(after) == if before.is_full() {
            held(before)
        } else {
            held(before).push((event, payload))
        },
        after.is_full() == before.is_full(),
        after.cleared_at() == before.cleared_at(),
{
    assert(before.may_answer(after.calls().last().accepted));
    assert(after.may_answer(true) == before.may_answer(true));
    assert(after.kept_from() == before.kept_from());
    let calls = after.calls().skip(before.cleared_at());
    assert(calls.last() == after.calls().last());
    assert(calls.drop_last() =~= after.calls().drop_last().skip(before.cleared_at()));
}

/// Over a whole run a host in memory comes to hold each text frame, in order and as it came or in
/// its envelope, and nothing else; one whose queue is full holds what it held. `hosts` is the host
/// before the first event and after each one.
pub proof fn law_mock_holds_the_frames_of_a_run(
    events: Seq<TunnelEvent>,
    hosts: Seq<addin_host::MockAddinHost>,
    correlation_id: Option<Seq<char>>,
)
    requires
        hosts.len() == events.len() + 1,
        0 <= hosts[0].cleared_at() <= hosts[0].calls().len(),
        forall|i: int|
            0 <= i < events.len() ==> steps_to(
                #[trigger] hosts[i],
                hosts[i + 1],
                events[i],
                correlation_id,
            ),
    ensures
        held(hosts.last()) == if hosts[0].is_full() {
            held(hosts[0])
        } else {
            held(hosts[0]) + incoming_events(events, correlation_id)
        },
        hosts.last().is_full() == hosts[0].is_full(),
        hosts.last().cleared_at() == hosts[0].cleared_at(),
        hosts[0].calls().len() <= hosts.last().calls().len(),
    decreases events.len(),
{
    if events.len() == 0 {
        assert(held(hosts[0]) + incoming_events(events, correlation_id) =~= held(hosts[0]));
    } else {
        let n = events.len() - 1;
        let fewer = events.drop_last();
        let shorter = hosts.drop_last();
        assert forall|i: int| 0 <= i < fewer.len() implies steps_to(
            #[trigger] shorter[i],
            shorter[i + 1],
            fewer[i],
            correlation_id,
        ) by {
            assert(steps_to(hosts[i], hosts[i + 1], events[i], correlation_id));
        }
        law_mock_holds_the_frames_of_a_run(fewer, shorter, correlation_id);
        let before = hosts[n];
        let after = hosts[n + 1];
        assert(steps_to(before, after, events[n], correlation_id));
        match events.last() {
            TunnelEvent::Frame(TextOrClose::Text(text)) => {
                law_mock_holds_what_it_is_offered(
                    before,
                    after,
                    EVENT_INCOMING@,
                    incoming_payload(text@, correlation_id),
                );
            },
            _ => {
                assert(after.may_answer(true) == before.may_answer(true));
                assert(after.kept_from() == before.kept_from());
            },
        }
        assert(held(hosts[0]) + incoming_events(events, correlation_id) =~= match events.last() {
            TunnelEvent::Frame(TextOrClose::Text(text)) => (held(hosts[0]) + incoming_events(
                fewer,
                correlation_id,
            )).push((EVENT_INCOMING@, incoming_payload(text@, correlation_id))),
            _ => held(hosts[0]) + incoming_events(fewer, correlation_id),
        });
    }
}

/// The messages that a tunnel gives to the sink over `events`, in order.
pub open spec fn given_to_sink(events: Seq<TunnelEvent>) -> Seq<Seq<char>>
    decreases events.len(),
{
    if events.len() == 0 {
        Seq::empty()
    } else {
        let earlier = given_to_sink(events.drop_last());
        match action_after(events.last()) {
            TunnelAction::Send(text) => earlier.push(text@),
            _ => earlier,
        }
    }
}

/// How many of `events` are messages of the 1C side.
pub open spec fn taken_from_queue(events: Seq<TunnelEvent>) -> nat
    decreases events.len(),
{
    if events.len() == 0 {
        0
    } else {
        taken_from_queue(events.drop_last()) + if events.last() is Outgoing {
            1nat
        } else {
            0nat
        }
    }
}

/// Whether `events` can happen to a tunnel whose queue holds `queue` in all: each message of the 1C
/// side is the next one of the queue, the end of the queue comes after all of them, a failed write
/// follows the message that was written, and nothing follows an event that ends the tunnel.
pub open spec fn can_happen_over(events: Seq<TunnelEvent>, queue: Seq<Seq<char>>) -> bool
    decreases events.len(),
{
    events.len() == 0 || {
        let earlier = events.drop_last();
        let taken = taken_from_queue(earlier);
        &&& can_happen_over(earlier, queue)
        &&& match events.last() {
            TunnelEvent::Outgoing(text) => taken < queue.len() && text@ == queue[taken as int],
            TunnelEvent::OutboundDropped => taken == queue.len(),
            TunnelEvent::SendFailed => earlier.len() > 0 && earlier.last() is Outgoing,
            _ => true,
        }
        &&& earlier.len() > 0 ==> !(action_after(earlier.last()) is Finish)
    }
}

/// The messages whose writing did not fail.
pub open spec fn written(events: Seq<TunnelEvent>) -> Seq<Seq<char>> {
    if events.len() > 0 && events.last() is SendFailed {
        given_to_sink(events).drop_last()
    } else {
        given_to_sink(events)
    }
}

/// Over a whole run the sink is given the messages of the queue, from the first on, in order, each
/// once and as it was; what was not given is still in the queue. The tunnel ends for want of a queue
/// only when all of it was written, and a failed write loses the message that was given last and no
/// other.
pub proof fn law_messages_are_written_in_order(events: Seq<TunnelEvent>, queue: Seq<Seq<char>>)
    requires
        can_happen_over(events, queue),
    ensures
        taken_from_queue(events) <= queue.len(),
        given_to_sink(events) == queue.take(taken_from_queue(events) as int),
        given_to_sink(events) + queue.skip(taken_from_queue(events) as int) == queue,
        events.len() > 0 && events.last() is OutboundDropped ==> written(events) == queue,
        events.len() > 0 && events.last() is SendFailed ==> given_to_sink(events).len() > 0
            && written(events) == queue.take(taken_from_queue(events) - 1),
        forall|i: int|
            0 <= i < events.len() - 1 ==> !(action_after(#[trigger] events[i]) is Finish),
    decreases events.len(),
{
    if events.len() > 0 {
        let earlier = events.drop_last();
        law_messages_are_written_in_order(earlier, queue);
        let taken = taken_from_queue(earlier) as int;
        if events.last() is Outgoing {
            assert(queue.take(taken + 1) =~= queue.take(taken).push(queue[taken]));
        }
        assert forall|i: int| 0 <= i < events.len() - 1 implies !(action_after(
            #[trigger] events[i],
        ) is Finish) by {
            assert(earlier[i] == events[i]);
        }
        if events.last() is SendFailed {
            assert(taken_from_queue(earlier) > 0);
            assert(queue.take(taken).drop_last() =~= queue.take(taken - 1));
        }
        if events.last() is OutboundDropped {
            assert(queue.take(taken) =~= queue);
        }
    }
    let n = taken_from_queue(events) as int;
    assert(queue.take(n) + queue.skip(n) =~= queue);
}

/// The tunnel goes on after a text frame whatever the host answers, and after no other event from
/// the manager: only a message of the 1C side is written, and it is written as it is.
pub proof fn law_what_keeps_a_tunnel(event: TunnelEvent)
    ensures
        action_after(event) == TunnelAction::Wait <==> (event matches TunnelEvent::Frame(frame)
            && frame is Text),
        forall|text: String|
            action_after(event) == TunnelAction::Send(text) <==> event == TunnelEvent::Outgoing(
                text,
            ),
{
}

/// The manager's side is closed by the tunnel exactly where the owner asked it to end.
pub proof fn law_sink_closed_on_cancel_only(event: TunnelEvent)
    ensures
        (action_after(event) matches TunnelAction::Finish { close_sink, .. } && close_sink)
            <==> event is Cancelled,
        action_after(event) matches TunnelAction::Finish { outcome, .. } ==> (outcome
            == RunOutcome::Cancelled <==> event is Cancelled),
{
}

/// An envelope shows both what it carries and whose it is: two that differ never have one text.
pub proof fn law_envelope_unambiguous(
    id_a: Seq<char>,
    payload_a: Seq<char>,
    id_b: Seq<char>,
    payload_b: Seq<char>,
)
    requires
        envelope(id_a, payload_a) == envelope(id_b, payload_b),
    ensures
        id_a == id_b,
        payload_a == payload_b,
{
    let rest_a = json::json_string(payload_a) + "}"@;
    let rest_b = json::json_string(payload_b) + "}"@;
    let tail_a = ",\"payload\":"@ + rest_a;
    let tail_b = ",\"payload\":"@ + rest_b;
    text::lemma_cancel_prefix(
        "{\"correlation_id\":"@,
        json::json_string(id_a) + tail_a,
        json::json_string(id_b) + tail_b,
    );
    json::law_json_string_unambiguous(id_a, id_b, tail_a, tail_b);
    text::lemma_cancel_prefix(",\"payload\":"@, rest_a, rest_b);
    json::law_json_string_unambiguous(payload_a, payload_b, "}"@, "}"@);
}

/// Reading an envelope gives back what it carries and whose it is: it is an object with these two
/// members, and both are strings with these texts, whatever the message is.
pub proof fn law_envelope_reads_back(correlation_id: Seq<char>, payload: Seq<char>)
    ensures
        json::read_object(envelope(correlation_id, payload)) == Some(
            seq![("correlation_id"@, correlation_id), ("payload"@, payload)],
        ),
{
    let all = seq![("correlation_id"@, correlation_id), ("payload"@, payload)];
    assert("{\"correlation_id\":"@ =~= seq!['{'] + (json::json_string("correlation_id"@) + seq![
        ':',
    ])) by {
        reveal_strlit("correlation_id");
        reveal_strlit("{\"correlation_id\":");
        json::lemma_plain_string("correlation_id"@);
    }
    assert(",\"payload\":"@ =~= seq![','] + (json::json_string("payload"@) + seq![':'])) by {
        reveal_strlit("payload");
        reveal_strlit(",\"payload\":");
        json::lemma_plain_string("payload"@);
    }
    assert("}"@ =~= seq!['}']) by {
        reveal_strlit("}");
    }
    json::lemma_labelled(",\"payload\":"@, ',', "payload"@, payload, "}"@);
    assert(json::members_text(all.skip(1)) == json::member_and("payload"@, payload, "}"@));
    let after_id = seq![','] + json::members_text(all.skip(1));
    json::lemma_labelled(
        "{\"correlation_id\":"@,
        '{',
        "correlation_id"@,
        correlation_id,
        after_id,
    );
    assert(envelope(correlation_id, payload) == json::object_text(all));
    json::law_object_reads_back(all);
}

/// What a text frame of a tunnel leads to, for every text and every host: one event `WS_INCOMING` is
/// offered to 1C, behind all that were offered before, and no other. In a session with a correlation
/// identifier its payload reads as a JSON object of two strings, the identifier and the text of the
/// frame; in a session without one it is the text itself. The host answers as it may, and the tunnel
/// goes on.
pub proof fn law_text_frame_reaches_1c<H: AddinHost>(
    before: H,
    after: H,
    text: String,
    correlation_id: Option<Seq<char>>,
)
    requires
        steps_to(before, after, TunnelEvent::Frame(TextOrClose::Text(text)), correlation_id),
    ensures
        after.calls().len() == before.calls().len() + 1,
        after.calls().drop_last() == before.calls(),
        after.calls().last().event == "WS_INCOMING"@,
        match correlation_id {
            Some(id) => json::read_object(after.calls().last().payload) == Some(
                seq![("correlation_id"@, id), ("payload"@, text@)],
            ),
            None => after.calls().last().payload == text@,
        },
        before.may_answer(after.calls().last().accepted),
        action_after(TunnelEvent::Frame(TextOrClose::Text(text))) == TunnelAction::Wait,
{
    if let Some(id) = correlation_id {
        law_envelope_reads_back(id, text@);
    }
}

/// What 1C is offered for a message: its text where there is no correlation identifier, else an
/// object that gives back both.
pub proof fn law_incoming_payload_reads_back(payload: Seq<char>, correlation_id: Seq<char>)
    ensures
        incoming_payload(payload, None) == payload,
        json::read_object(incoming_payload(payload, Some(correlation_id))) == Some(
            seq![("correlation_id"@, correlation_id), ("payload"@, payload)],
        ),
{
    law_envelope_reads_back(correlation_id, payload);
}

/// An event of a tunnel that is no text frame offers nothing to 1C.
pub proof fn law_other_events_offer_nothing<H: AddinHost>(
    before: H,
    after: H,
    event: TunnelEvent,
    correlation_id: Option<Seq<char>>,
)
    requires
        steps_to(before, after, event, correlation_id),
        forall|text: String| event != TunnelEvent::Frame(TextOrClose::Text(text)),
    ensures
        after.calls() == before.calls(),
{
}

/// What ends a tunnel ends it with its own outcome: the owner's request, a close frame and the end of
/// the stream, a failed reading, the end of the queue, a failed writing.
pub proof fn law_each_end_has_its_outcome()
    ensures
        action_after(TunnelEvent::Cancelled) == (TunnelAction::Finish {
            outcome: RunOutcome::Cancelled,
            close_sink: true,
        }),
        action_after(TunnelEvent::Frame(TextOrClose::Close)) == (TunnelAction::Finish {
            outcome: RunOutcome::Closed,
            close_sink: false,
        }),
        action_after(TunnelEvent::StreamEnded) == (TunnelAction::Finish {
            outcome: RunOutcome::Closed,
            close_sink: false,
        }),
        action_after(TunnelEvent::StreamFailed) == (TunnelAction::Finish {
            outcome: RunOutcome::InboundError,
            close_sink: false,
        }),
        action_after(TunnelEvent::OutboundDropped) == (TunnelAction::Finish {
            outcome: RunOutcome::OutboundDropped,
            close_sink: false,
        }),
        action_after(TunnelEvent::SendFailed) == (TunnelAction::Finish {
            outcome: RunOutcome::SinkError,
            close_sink: false,
        }),
{
}

/// An event that was offered stands last in what a host was offered, under its name and with its
/// payload, and nothing else was offered with it.
pub proof fn law_offered_event_stands_last<H: AddinHost>(
    before: H,
    after: H,
    event: Seq<char>,
    payload: Seq<char>,
)
    requires
        offered_to(before, after, event, payload),
    ensures
        after.calls().len() == before.calls().len() + 1,
        after.calls().drop_last() == before.calls(),
        after.calls().last().event == event,
        after.calls().last().payload == payload,
        before.may_answer(after.calls().last().accepted),
        after.kept_from() == before.kept_from(),
        after.may_answer(true) == before.may_answer(true),
        after.may_answer(false) == before.may_answer(false),
{
}

/// Queueing succeeds exactly where the channel took the message, whatever the message.
pub proof fn law_queued_where_taken(back: String)
    ensures
        result_of_put(Ok(())) == Ok::<(), SendError>(()),
        result_of_put(Err(back)) == Err::<(), SendError>(SendError::Closed),
{
}

/// The characters of an optional string slice are those of the slice.
pub proof fn law_id_text_is_the_text(id: &str)
    ensures
        id_text(Some(id)) == Some(id@),
        id_text(None) is None,
{
}

/// A message that a channel does not take comes back as it was; no other answer is possible.
pub proof fn law_refused_message_comes_back(
    channel: UnboundedSender<String>,
    text: String,
    put: Result<(), String>,
)
    requires
        put_answers(channel, text, put),
    ensures
        put matches Err(back) ==> back == text,
{
}

} // verus!
