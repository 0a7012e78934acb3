//! Keeps a session connected: connect, run the tunnel, wait, and again.
//!
//! Each change of state is published to 1C as an event [`EVENT_RECONNECT_STATE`] whose payload is a
//! JSON object:
//!
//! ```json
//! {"state":"connecting","attempt":1}
//! {"state":"connected"}
//! {"state":"disconnected","reason":"InboundError"}
//! {"state":"give_up","reason":"max attempts exceeded"}
//! ```
//!
//! [`Reconnector`] decides. What happened to the connection comes in as a [`ReconnectEvent`];
//! [`Reconnector::step`] answers with the notices to publish and with what to do next.
use vstd::prelude::*;

use crate::addin_host::AddinHost;
use crate::json;
use crate::text;
use crate::tunnel::RunOutcome;
use crate::tunnel;

verus! {

/// The name of the 1C event that tells the state of the connection.
pub const EVENT_RECONNECT_STATE: &'static str = "WS_RECONNECT_STATE";

/// How long to pause after each notice, in milliseconds. The platform on Linux loses events that
/// follow one another without a pause.
pub const NOTICE_PAUSE_MS: u64 = 100;

/// How the whole run ended.
#[derive(Debug, Clone, Copy, PartialEq, Eq, Structural)]
pub enum FinalOutcome {
    /// The owner asked for it.
    Cancelled,
    /// The 1C side can send no more, so there is no use in connecting again.
    OutboundDropped,
    /// As many attempts in a row have failed as are allowed.
    GiveUp,
}

/// A change of state that 1C is told of.
#[derive(Debug, PartialEq, Eq)]
pub enum StateNotice {
    /// An attempt to connect begins; attempts are counted from 1.
    Connecting(u32),
    Connected,
    Disconnected(String),
    GiveUp(String),
}

/// What a [`StateNotice`] says.
pub ghost enum Notice {
    Connecting(nat),
    Connected,
    Disconnected(Seq<char>),
    GiveUp(Seq<char>),
}

impl View for StateNotice {
    type V = Notice;

    open spec fn view(&self) -> Notice {
        match *self {
            StateNotice::Connecting(attempt) => Notice::Connecting(attempt as nat),
            StateNotice::Connected => Notice::Connected,
            StateNotice::Disconnected(reason) => Notice::Disconnected(reason@),
            StateNotice::GiveUp(reason) => Notice::GiveUp(reason@),
        }
    }
}

/// The payload of the event that carries a notice.
pub open spec fn payload_of(notice: Notice) -> Seq<char> {
    match notice {
        Notice::Connecting(attempt) => "{\"state\":\"connecting\",\"attempt\":"@ + (text::decimal(
            attempt,
        ) + "}"@),
        Notice::Connected => "{\"state\":\"connected\"}"@,
        Notice::Disconnected(reason) => "{\"state\":\"disconnected\",\"reason\":"@ + (
        json::json_string(reason) + "}"@),
        Notice::GiveUp(reason) => "{\"state\":\"give_up\",\"reason\":"@ + (json::json_string(reason)
            + "}"@),
    }
}

/// Publishes notices through a host.
pub struct StateEmitter<H: AddinHost> {
    pub host: H,
}

impl<H: AddinHost> StateEmitter<H> {
    /// Publishes a payload. It does not matter whether the host takes it.
    pub fn emit(&mut self, payload: &str)
        ensures
            tunnel::offered_to(
                old(self).host,
                final(self).host,
                EVENT_RECONNECT_STATE@,
                payload@,
            ),
    {
        let ghost before = self.host.calls();
        let _accepted: bool = self.host.external_event(EVENT_RECONNECT_STATE, payload);
        assert(self.host.calls().drop_last() =~= before);
    }

    /// Tells that an attempt to connect begins.
    pub fn connecting(&mut self, attempt: u32)
        ensures
            tunnel::offered_to(
                old(self).host,
                final(self).host,
                EVENT_RECONNECT_STATE@,
                payload_of(Notice::Connecting(attempt as nat)),
            ),
    {
        let mut payload = "{\"state\":\"connecting\",\"attempt\":".to_owned();
        text::push_decimal(&mut payload, attempt as u64);
        payload.append("}");
        assert(payload@ =~= payload_of(Notice::Connecting(attempt as nat)));
        self.emit(payload.as_str());
    }

    /// Tells that the connection stands.
    pub fn connected(&mut self)
        ensures
            tunnel::offered_to(
                old(self).host,
                final(self).host,
                EVENT_RECONNECT_STATE@,
                payload_of(Notice::Connected),
            ),
    {
        self.emit("{\"state\":\"connected\"}");
    }

    /// Tells that there is no connection, and why.
    pub fn disconnected(&mut self, reason: &str)
        ensures
            tunnel::offered_to(
                old(self).host,
                final(self).host,
                EVENT_RECONNECT_STATE@,
                payload_of(Notice::Disconnected(reason@)),
            ),
    {
        let mut payload = "{\"state\":\"disconnected\",\"reason\":".to_owned();
        payload.append(json::quote(reason).as_str());
        payload.append("}");
        assert(payload@ =~= payload_of(Notice::Disconnected(reason@)));
        self.emit(payload.as_str());
    }

    /// Tells that no further attempt will be made, and why.
    pub fn give_up(&mut self, reason: &str)
        ensures
            tunnel::offered_to(
                old(self).host,
                final(self).host,
                EVENT_RECONNECT_STATE@,
                payload_of(Notice::GiveUp(reason@)),
            ),
    {
        let mut payload = "{\"state\":\"give_up\",\"reason\":".to_owned();
        payload.append(json::quote(reason).as_str());
        payload.append("}");
        assert(payload@ =~= payload_of(Notice::GiveUp(reason@)));
        self.emit(payload.as_str());
    }

    /// Publishes a notice.
    pub fn publish(&mut self, notice: &StateNotice)
        ensures
            tunnel::offered_to(
                old(self).host,
                final(self).host,
                EVENT_RECONNECT_STATE@,
                payload_of(notice@),
            ),
    {
        match notice {
            StateNotice::Connecting(attempt) => self.connecting(*attempt),
            StateNotice::Connected => self.connected(),
            StateNotice::Disconnected(reason) => self.disconnected(reason.as_str()),
            StateNotice::GiveUp(reason) => self.give_up(reason.as_str()),
        }
    }
}

/// Where a [`Reconnector`] stands.
#[derive(Debug, Clone, Copy, PartialEq, Eq, Structural)]
pub enum Phase {
    /// Before the next attempt: at the start, or while it waits after an attempt or a session.
    Idle,
    /// While an attempt to connect is under way.
    Connecting,
    /// While a tunnel runs.
    Running,
    /// After the end.
    Done,
}

/// What happened to the connection.
#[derive(Debug)]
pub enum ReconnectEvent {
    /// The next attempt is due; `cancelled` says whether the owner has asked to end by then.
    Due { cancelled: bool },
    /// The owner asked to end while an attempt was under way, or while the next was waited for.
    Cancelled,
    /// The attempt to connect succeeded.
    Connected,
    /// The attempt to connect failed, for this reason.
    ConnectFailed(String),
    /// The tunnel ended.
    TunnelEnded(RunOutcome),
}

/// What to do next.
#[derive(Debug, Clone, Copy, PartialEq, Eq, Structural)]
pub enum ReconnectAction {
    /// Try to connect.
    Connect,
    /// Run the tunnel on the new connection.
    RunTunnel,
    /// Wait as long as is due after this many failed attempts in a row, then report
    /// [`ReconnectEvent::Due`].
    Backoff { attempt: u32 },
    /// End with this outcome.
    Finish(FinalOutcome),
}

/// What [`Reconnector::step`] answers.
#[derive(Debug)]
pub struct Step {
    /// The notices to publish, in this order, before anything else is done.
    pub notices: Vec<StateNotice>,
    pub action: ReconnectAction,
}

/// Decides when to connect, and when to stop.
#[derive(Debug, Clone, Copy, PartialEq, Eq, Structural)]
pub struct Reconnector {
    /// How many attempts in a row have been made since the last session.
    pub attempt: u32,
    pub phase: Phase,
    /// After how many failed attempts in a row to give up; `None` means never.
    pub max_attempts: Option<u32>,
}

/// What each notice says.
pub open spec fn notices_view(notices: Seq<StateNotice>) -> Seq<Notice> {
    notices.map_values(|n: StateNotice| n@)
}

/// The reason in the notice that a tunnel has ended.
pub open spec fn reason_of(outcome: RunOutcome) -> Seq<char> {
    match outcome {
        RunOutcome::Cancelled => "Cancelled"@,
        RunOutcome::Closed => "Closed"@,
        RunOutcome::InboundError => "InboundError"@,
        RunOutcome::OutboundDropped => "OutboundDropped"@,
        RunOutcome::SinkError => "SinkError"@,
    }
}

impl Reconnector {
    /// Whether `event` can happen in this phase.
    pub open spec fn can_happen(self, event: ReconnectEvent) -> bool {
        match event {
            ReconnectEvent::Due { .. } => self.phase == Phase::Idle,
            ReconnectEvent::Cancelled => self.phase == Phase::Idle || self.phase
                == Phase::Connecting,
            ReconnectEvent::Connected => self.phase == Phase::Connecting,
            ReconnectEvent::ConnectFailed(_) => self.phase == Phase::Connecting,
            ReconnectEvent::TunnelEnded(_) => self.phase == Phase::Running,
        }
    }

    /// The number of the attempt that is due next.
    pub open spec fn next_attempt(self) -> u32 {
        if self.attempt < u32::MAX {
            (self.attempt + 1) as u32
        } else {
            u32::MAX
        }
    }

    /// Whether no further attempt is allowed.
    pub open spec fn exhausted(self) -> bool {
        self.max_attempts matches Some(max) && self.attempt >= max
    }

    /// What to do on `event`.
    pub open spec fn action_on(self, event: ReconnectEvent) -> ReconnectAction {
        match event {
            ReconnectEvent::Due { cancelled } => if cancelled {
                ReconnectAction::Finish(FinalOutcome::Cancelled)
            } else {
                ReconnectAction::Connect
            },
            ReconnectEvent::Cancelled => ReconnectAction::Finish(FinalOutcome::Cancelled),
            ReconnectEvent::Connected => ReconnectAction::RunTunnel,
            ReconnectEvent::ConnectFailed(_) => if self.exhausted() {
                ReconnectAction::Finish(FinalOutcome::GiveUp)
            } else {
                ReconnectAction::Backoff { attempt: self.attempt }
            },
            ReconnectEvent::TunnelEnded(outcome) => match outcome {
                RunOutcome::Cancelled => ReconnectAction::Finish(FinalOutcome::Cancelled),
                RunOutcome::OutboundDropped => ReconnectAction::Finish(
                    FinalOutcome::OutboundDropped,
                ),
                _ => ReconnectAction::Backoff { attempt: self.attempt },
            },
        }
    }

    /// What 1C is told on `event`.
    pub open spec fn notices_on(self, event: ReconnectEvent) -> Seq<Notice> {
        match event {
            ReconnectEvent::Due { cancelled } => if cancelled {
                Seq::empty()
            } else {
                seq![Notice::Connecting(self.next_attempt() as nat)]
            },
            ReconnectEvent::Cancelled => Seq::empty(),
            ReconnectEvent::Connected => seq![Notice::Connected],
            ReconnectEvent::ConnectFailed(error) => {
                let failed = Notice::Disconnected("ConnectError: "@ + error@);
                if self.exhausted() {
                    seq![failed, Notice::GiveUp("max attempts exceeded"@)]
                } else {
                    seq![failed]
                }
            },
            ReconnectEvent::TunnelEnded(outcome) => if outcome == RunOutcome::Cancelled {
                Seq::empty()
            } else {
                seq![Notice::Disconnected(reason_of(outcome))]
            },
        }
    }

    /// Where `event` leads.
    pub open spec fn after(self, event: ReconnectEvent) -> Reconnector {
        let phase = match self.action_on(event) {
            ReconnectAction::Connect => Phase::Connecting,
            ReconnectAction::RunTunnel => Phase::Running,
            ReconnectAction::Backoff { .. } => Phase::Idle,
            ReconnectAction::Finish(_) => Phase::Done,
        };
        let attempt = match event {
            ReconnectEvent::Due { cancelled } => if cancelled {
                self.attempt
            } else {
                self.next_attempt()
            },
            ReconnectEvent::Connected => 0,
            _ => self.attempt,
        };
        Reconnector { attempt, phase, max_attempts: self.max_attempts }
    }

    /// What holds of every reconnector that [`Reconnector::new`] and [`Reconnector::step`] make: a
    /// running tunnel has cleared the count, and an attempt under way has been counted.
    pub open spec fn well_formed(self) -> bool {
        &&& self.phase == Phase::Running ==> self.attempt == 0
        &&& self.phase == Phase::Connecting ==> self.attempt >= 1
    }

    /// A reconnector before its first attempt.
    pub fn new(max_attempts: Option<u32>) -> (out: Reconnector)
        ensures
            out == (Reconnector { attempt: 0, phase: Phase::Idle, max_attempts }),
            out.well_formed(),
    {
        Reconnector { attempt: 0, phase: Phase::Idle, max_attempts }
    }

    /// Whether `event` can happen in this phase.
    pub fn expects(&self, event: &ReconnectEvent) -> (yes: bool)
        ensures
            yes == self.can_happen(*event),
    {
        match event {
            ReconnectEvent::Due { .. } => self.phase == Phase::Idle,
            ReconnectEvent::Cancelled => self.phase == Phase::Idle || self.phase
                == Phase::Connecting,
            ReconnectEvent::Connected => self.phase == Phase::Connecting,
            ReconnectEvent::ConnectFailed(_) => self.phase == Phase::Connecting,
            ReconnectEvent::TunnelEnded(_) => self.phase == Phase::Running,
        }
    }

    /// Takes an event that can happen in this phase, and says what to publish and what to do next.
    pub fn step(&mut self, event: ReconnectEvent) -> (step: Step)
        requires
            old(self).can_happen(event),
        ensures
            *final(self) == old(self).after(event),
            notices_view(step.notices@) == old(self).notices_on(event),
            step.action == old(self).action_on(event),
            old(self).well_formed() ==> final(self).well_formed(),
    {
        let mut notices: Vec<StateNotice> = Vec::new();
        let action = match event {
            ReconnectEvent::Due { cancelled } => if cancelled {
                ReconnectAction::Finish(FinalOutcome::Cancelled)
            } else {
                if self.attempt < u32::MAX {
                    self.attempt = self.attempt + 1;
                }
                notices.push(StateNotice::Connecting(self.attempt));
                ReconnectAction::Connect
            },
            ReconnectEvent::Cancelled => ReconnectAction::Finish(FinalOutcome::Cancelled),
            ReconnectEvent::Connected => {
                self.attempt = 0;
                notices.push(StateNotice::Connected);
                ReconnectAction::RunTunnel
            },
            ReconnectEvent::ConnectFailed(error) => {
                notices.push(
                    StateNotice::Disconnected("ConnectError: ".to_owned().concat(error.as_str())),
                );
                let exhausted: bool = match self.max_attempts {
                    Some(max) => self.attempt >= max,
                    None => false,
                };
                if exhausted {
                    notices.push(StateNotice::GiveUp("max attempts exceeded".to_owned()));
                    ReconnectAction::Finish(FinalOutcome::GiveUp)
                } else {
                    ReconnectAction::Backoff { attempt: self.attempt }
                }
            },
            ReconnectEvent::TunnelEnded(outcome) => match outcome {
                RunOutcome::Cancelled => ReconnectAction::Finish(FinalOutcome::Cancelled),
                RunOutcome::OutboundDropped => {
                    notices.push(StateNotice::Disconnected("OutboundDropped".to_owned()));
                    ReconnectAction::Finish(FinalOutcome::OutboundDropped)
                },
                RunOutcome::Closed => {
                    notices.push(StateNotice::Disconnected("Closed".to_owned()));
                    ReconnectAction::Backoff { attempt: self.attempt }
                },
                RunOutcome::InboundError => {
                    notices.push(StateNotice::Disconnected("InboundError".to_owned()));
                    ReconnectAction::Backoff { attempt: self.attempt }
                },
                RunOutcome::SinkError => {
                    notices.push(StateNotice::Disconnected("SinkError".to_owned()));
                    ReconnectAction::Backoff { attempt: self.attempt }
                },
            },
        };
        self.phase = match action {
            ReconnectAction::Connect => Phase::Connecting,
            ReconnectAction::RunTunnel => Phase::Running,
            ReconnectAction::Backoff { .. } => Phase::Idle,
            ReconnectAction::Finish(_) => Phase::Done,
        };
        assert(notices_view(notices@) =~= old(self).notices_on(event));
        Step { notices, action }
    }
}

/// The payload of an event shows the notice: two notices that differ never have one payload.
pub proof fn law_payload_unambiguous(a: Notice, b: Notice)
    requires
        payload_of(a) == payload_of(b),
    ensures
        a == b,
{
    reveal_strlit("{\"state\":\"connecting\",\"attempt\":");
    reveal_strlit("{\"state\":\"connected\"}");
    reveal_strlit("{\"state\":\"disconnected\",\"reason\":");
    reveal_strlit("{\"state\":\"give_up\",\"reason\":");
    let initial = |n: Notice|
        match n {
            Notice::Connecting(_) => 'c',
            Notice::Connected => 'c',
            Notice::Disconnected(_) => 'd',
            Notice::GiveUp(_) => 'g',
        };
    assert(payload_of(a)[10] == initial(a));
    assert(payload_of(b)[10] == initial(b));
    assert(a is Connecting ==> payload_of(a)[17] == 'i');
    assert(b is Connecting ==> payload_of(b)[17] == 'i');
    assert(a is Connected ==> payload_of(a)[17] == 'e');
    assert(b is Connected ==> payload_of(b)[17] == 'e');
    match (a, b) {
        (Notice::Connecting(m), Notice::Connecting(n)) => {
            text::lemma_cancel_prefix(
                "{\"state\":\"connecting\",\"attempt\":"@,
                text::decimal(m) + "}"@,
                text::decimal(n) + "}"@,
            );
            reveal_strlit("}");
            assert((text::decimal(m) + "}"@).drop_last() =~= text::decimal(m));
            assert((text::decimal(n) + "}"@).drop_last() =~= text::decimal(n));
            text::lemma_decimal_injective(m, n);
        },
        (Notice::Disconnected(r), Notice::Disconnected(s)) => {
            text::lemma_cancel_prefix(
                "{\"state\":\"disconnected\",\"reason\":"@,
                json::json_string(r) + "}"@,
                json::json_string(s) + "}"@,
            );
            json::law_json_string_unambiguous(r, s, "}"@, "}"@);
        },
        (Notice::GiveUp(r), Notice::GiveUp(s)) => {
            text::lemma_cancel_prefix(
                "{\"state\":\"give_up\",\"reason\":"@,
                json::json_string(r) + "}"@,
                json::json_string(s) + "}"@,
            );
            json::law_json_string_unambiguous(r, s, "}"@, "}"@);
        },
        _ => {},
    }
}

/// One failed attempt, from the moment it is due: where it leads.
pub open spec fn after_failure(r: Reconnector, error: String) -> Reconnector {
    r.after(ReconnectEvent::Due { cancelled: false }).after(ReconnectEvent::ConnectFailed(error))
}

/// Failed attempts in a row: where they lead.
pub open spec fn after_failures(r: Reconnector, errors: Seq<String>) -> Reconnector
    decreases errors.len(),
{
    if errors.len() == 0 {
        r
    } else {
        after_failure(after_failures(r, errors.drop_last()), errors.last())
    }
}

/// What 1C is told over failed attempts in a row.
pub open spec fn notices_over(r: Reconnector, errors: Seq<String>) -> Seq<Notice>
    decreases errors.len(),
{
    if errors.len() == 0 {
        Seq::empty()
    } else {
        let before = after_failures(r, errors.drop_last());
        let due = ReconnectEvent::Due { cancelled: false };
        notices_over(r, errors.drop_last()) + before.notices_on(due) + before.after(due).notices_on(
            ReconnectEvent::ConnectFailed(errors.last()),
        )
    }
}

/// What 1C is told over `errors` as long as no end is reached: each attempt by its number, counted
/// from `base + 1`, and its failure.
pub open spec fn counted_failures(base: nat, errors: Seq<String>) -> Seq<Notice>
    decreases errors.len(),
{
    if errors.len() == 0 {
        Seq::empty()
    } else {
        counted_failures(base, errors.drop_last()) + seq![
            Notice::Connecting(base + errors.len()),
            Notice::Disconnected("ConnectError: "@ + errors.last()@),
        ]
    }
}

/// Fewer failures in a row than are allowed end nothing: the count is right, each attempt has been
/// announced by its number, and the next one is waited for.
pub proof fn law_failures_are_counted(r: Reconnector, errors: Seq<String>)
    requires
        r.phase == Phase::Idle,
        r.attempt + errors.len() <= u32::MAX,
        r.max_attempts matches Some(max) ==> errors.len() == 0 || r.attempt + errors.len() < max,
    ensures
        after_failures(r, errors) == (Reconnector {
            attempt: (r.attempt + errors.len()) as u32,
            ..r
        }),
        notices_over(r, errors) == counted_failures(r.attempt as nat, errors),
    decreases errors.len(),
{
    if errors.len() > 0 {
        law_failures_are_counted(r, errors.drop_last());
        assert(notices_over(r, errors) =~= counted_failures(r.attempt as nat, errors));
    }
}

/// With a limit, exactly that many failures in a row end the run, and one where the limit is 0: the
/// last one is announced like those before it, then 1C is told that no further attempt follows.
pub proof fn law_gives_up_after_max_attempts(max: u32, errors: Seq<String>)
    requires
        errors.len() == if max == 0 {
            1
        } else {
            max as nat
        },
    ensures
        ({
            let start = Reconnector { attempt: 0, phase: Phase::Idle, max_attempts: Some(max) };
            let last_due = after_failures(start, errors.drop_last()).after(
                ReconnectEvent::Due { cancelled: false },
            );
            &&& after_failures(start, errors).phase == Phase::Done
            &&& last_due.action_on(ReconnectEvent::ConnectFailed(errors.last()))
                == ReconnectAction::Finish(FinalOutcome::GiveUp)
            &&& notices_over(start, errors) == counted_failures(0, errors).push(
                Notice::GiveUp("max attempts exceeded"@),
            )
        }),
{
    let start = Reconnector { attempt: 0, phase: Phase::Idle, max_attempts: Some(max) };
    law_failures_are_counted(start, errors.drop_last());
    assert(notices_over(start, errors) =~= counted_failures(0, errors).push(
        Notice::GiveUp("max attempts exceeded"@),
    ));
}

/// A run gives up only where there is a limit, at a failure, with the limit reached.
pub proof fn law_gives_up_only_at_the_limit(r: Reconnector, event: ReconnectEvent)
    ensures
        r.action_on(event) == ReconnectAction::Finish(FinalOutcome::GiveUp) <==> event
            is ConnectFailed && (r.max_attempts matches Some(max) && r.attempt >= max),
{
}

/// A run ends only where the owner asks for it, where the 1C side can send no more, or where it gives
/// up: a lost session never ends it.
pub proof fn law_what_ends_a_run(r: Reconnector, event: ReconnectEvent)
    ensures
        r.action_on(event) is Finish <==> {
            ||| event == (ReconnectEvent::Due { cancelled: true })
            ||| event == ReconnectEvent::Cancelled
            ||| event == ReconnectEvent::TunnelEnded(RunOutcome::Cancelled)
            ||| event == ReconnectEvent::TunnelEnded(RunOutcome::OutboundDropped)
            ||| event is ConnectFailed && r.exhausted()
        },
{
}

/// Where a list of events leads.
pub open spec fn after_all(r: Reconnector, events: Seq<ReconnectEvent>) -> Reconnector
    decreases events.len(),
{
    if events.len() == 0 {
        r
    } else {
        after_all(r, events.drop_last()).after(events.last())
    }
}

/// Whether the events of a list can happen one after the other.
pub open spec fn can_all_happen(r: Reconnector, events: Seq<ReconnectEvent>) -> bool
    decreases events.len(),
{
    events.len() == 0 || (can_all_happen(r, events.drop_last()) && after_all(
        r,
        events.drop_last(),
    ).can_happen(events.last()))
}

/// What 1C is told over a list of events.
pub open spec fn all_notices(r: Reconnector, events: Seq<ReconnectEvent>) -> Seq<Notice>
    decreases events.len(),
{
    if events.len() == 0 {
        Seq::empty()
    } else {
        all_notices(r, events.drop_last()) + after_all(r, events.drop_last()).notices_on(
            events.last(),
        )
    }
}

/// Whether `next` may be told right after `last`, or first of all where there is no `last`.
pub open spec fn may_follow(last: Option<Notice>, next: Notice) -> bool {
    match next {
        Notice::Connecting(_) => last is None || last->0 is Disconnected,
        Notice::Connected => last is Some && last->0 is Connecting,
        Notice::Disconnected(_) => last is Some && (last->0 is Connecting || last->0 is Connected),
        Notice::GiveUp(_) => last is Some && last->0 is Disconnected,
    }
}

/// The notice before the one at `i`.
pub open spec fn notice_before(notices: Seq<Notice>, i: int) -> Option<Notice> {
    if i > 0 {
        Some(notices[i - 1])
    } else {
        None
    }
}

/// Whether each notice may follow the one before it, and none follows a [`Notice::GiveUp`].
pub open spec fn in_order(notices: Seq<Notice>) -> bool {
    &&& forall|i: int|
        0 <= i < notices.len() ==> may_follow(notice_before(notices, i), #[trigger] notices[i])
    &&& forall|i: int| 0 <= i < notices.len() - 1 ==> !(#[trigger] notices[i] is GiveUp)
}

/// Whatever happens, what 1C is told makes sense in its order: an attempt is announced first of all
/// or after a disconnection, each connection and each failure follows its attempt, and that no
/// further attempt is made is told once, after a failure, and last.
pub proof fn law_notices_come_in_order(max_attempts: Option<u32>, events: Seq<ReconnectEvent>)
    requires
        can_all_happen(
            Reconnector { attempt: 0, phase: Phase::Idle, max_attempts },
            events,
        ),
    ensures
        in_order(
            all_notices(Reconnector { attempt: 0, phase: Phase::Idle, max_attempts }, events),
        ),
{
    lemma_order(Reconnector { attempt: 0, phase: Phase::Idle, max_attempts }, events);
}

/// What the last notice is in each phase before the end.
spec fn last_fits(phase: Phase, notices: Seq<Notice>) -> bool {
    match phase {
        Phase::Idle => notices.len() == 0 || notices.last() is Disconnected,
        Phase::Connecting => notices.len() > 0 && notices.last() is Connecting,
        Phase::Running => notices.len() > 0 && notices.last() is Connected,
        Phase::Done => true,
    }
}

proof fn lemma_order_of_step(r: Reconnector, event: ReconnectEvent, told: Seq<Notice>)
    requires
        r.can_happen(event),
        last_fits(r.phase, told),
    ensures
        ({
            let new = r.notices_on(event);
            &&& new.len() <= 2
            &&& new.len() >= 1 ==> may_follow(notice_before(told + new, told.len() as int), new[0])
            &&& new.len() >= 1 ==> !(new[0] is GiveUp)
            &&& new.len() >= 1 && told.len() >= 1 ==> !(told.last() is GiveUp)
            &&& new.len() == 2 ==> may_follow(Some(new[0]), new[1])
            &&& last_fits(r.after(event).phase, told + new)
        }),
{
    let new = r.notices_on(event);
    assert(told.len() > 0 ==> (told + new)[told.len() - 1] == told.last());
    assert(new.len() == 0 ==> told + new =~= told);
    assert(new.len() >= 1 ==> (told + new).last() == new.last());
}

proof fn lemma_order(start: Reconnector, events: Seq<ReconnectEvent>)
    requires
        start.phase == Phase::Idle,
        can_all_happen(start, events),
    ensures
        last_fits(after_all(start, events).phase, all_notices(start, events)),
        in_order(all_notices(start, events)),
    decreases events.len(),
{
    if events.len() > 0 {
        let fewer = events.drop_last();
        lemma_order(start, fewer);
        let told = all_notices(start, fewer);
        let new = after_all(start, fewer).notices_on(events.last());
        lemma_order_of_step(after_all(start, fewer), events.last(), told);
        lemma_in_order(told, new);
    }
}

proof fn lemma_in_order(told: Seq<Notice>, new: Seq<Notice>)
    requires
        in_order(told),
        new.len() <= 2,
        new.len() >= 1 ==> may_follow(notice_before(told + new, told.len() as int), new[0]),
        new.len() >= 1 ==> !(new[0] is GiveUp),
        new.len() >= 1 && told.len() >= 1 ==> !(told.last() is GiveUp),
        new.len() == 2 ==> may_follow(Some(new[0]), new[1]),
    ensures
        in_order(told + new),
{
    let all = told + new;
    assert forall|i: int| 0 <= i < all.len() implies may_follow(
        notice_before(all, i),
        #[trigger] all[i],
    ) by {
        if i < told.len() {
            assert(all[i] == told[i]);
            assert(notice_before(all, i) == notice_before(told, i));
        } else if i > told.len() {
            assert(all[i] == new[1]);
            assert(all[i - 1] == new[0]);
        }
    }
    assert forall|i: int| 0 <= i < all.len() - 1 implies !(#[trigger] all[i] is GiveUp) by {
        if i < told.len() {
            assert(all[i] == told[i]);
        }
    }
}

/// A session clears the count: however many attempts it took, the next series starts at 1.
pub proof fn law_session_clears_the_count(r: Reconnector, outcome: RunOutcome)
    requires
        r.phase == Phase::Connecting,
        outcome == RunOutcome::Closed || outcome == RunOutcome::InboundError || outcome
            == RunOutcome::SinkError,
    ensures
        ({
            let running = r.after(ReconnectEvent::Connected);
            let ended = running.after(ReconnectEvent::TunnelEnded(outcome));
            &&& running.action_on(ReconnectEvent::TunnelEnded(outcome)) == ReconnectAction::Backoff {
                attempt: 0,
            }
            &&& ended.notices_on(ReconnectEvent::Due { cancelled: false }) == seq![
                Notice::Connecting(1),
            ]
        }),
{
}

/// A request of the owner ends the run wherever it can be noticed, and 1C is told nothing then.
pub proof fn law_cancel_ends_quietly(r: Reconnector, event: ReconnectEvent)
    requires
        event == (ReconnectEvent::Due { cancelled: true }) || event == ReconnectEvent::Cancelled
            || event == ReconnectEvent::TunnelEnded(RunOutcome::Cancelled),
    ensures
        r.action_on(event) == ReconnectAction::Finish(FinalOutcome::Cancelled),
        r.notices_on(event) == Seq::<Notice>::empty(),
        r.after(event).phase == Phase::Done,
{
}

/// After the end nothing can happen any more.
pub proof fn law_done_is_final(r: Reconnector, event: ReconnectEvent)
    requires
        r.phase == Phase::Done,
    ensures
        !r.can_happen(event),
{
}

/// An action and the phase that it leads to fit each other, and the limit never changes.
pub proof fn law_action_fits_phase(r: Reconnector, event: ReconnectEvent)
    ensures
        match r.action_on(event) {
            ReconnectAction::Connect => r.after(event).phase == Phase::Connecting,
            ReconnectAction::RunTunnel => r.after(event).phase == Phase::Running,
            ReconnectAction::Backoff { .. } => r.after(event).phase == Phase::Idle,
            ReconnectAction::Finish(_) => r.after(event).phase == Phase::Done,
        },
        r.after(event).max_attempts == r.max_attempts,
{
}

proof fn lemma_reason_label(state: Seq<char>, label: Seq<char>, reason: Seq<char>)
    requires
        label == seq!['{'] + json::member_and(
            "state"@,
            state,
            seq![','] + (json::json_string("reason"@) + seq![':']),
        ),
    ensures
        json::read_object(label + (json::json_string(reason) + seq!['}'])) == Some(
            seq![("state"@, state), ("reason"@, reason)],
        ),
{
    let members = seq![("state"@, state), ("reason"@, reason)];
    json::law_object_reads_back(members);
    assert(members.skip(1)[0] == ("reason"@, reason));
    let last = json::member_and("reason"@, reason, seq!['}']);
    assert(json::members_text(members.skip(1)) == last);
    let named = json::json_string("reason"@) + seq![':'];
    assert(named + (json::json_string(reason) + seq!['}']) =~= last);
    assert((seq![','] + named) + (json::json_string(reason) + seq!['}']) =~= seq![','] + last);
    let first = seq![':'] + (json::json_string(state) + (seq![','] + named));
    assert(label =~= seq!['{'] + (json::json_string("state"@) + first));
    assert(label + (json::json_string(reason) + seq!['}']) =~= seq!['{'] + json::member_and(
        "state"@,
        state,
        seq![','] + last,
    ));
}

proof fn lemma_disconnected_label()
    ensures
        "{\"state\":\"disconnected\",\"reason\":"@ == seq!['{'] + json::member_and(
            "state"@,
            "disconnected"@,
            seq![','] + (json::json_string("reason"@) + seq![':']),
        ),
{
    reveal_strlit("{\"state\":\"disconnected\",\"reason\":");
    reveal_strlit("state");
    reveal_strlit("disconnected");
    reveal_strlit("reason");
    json::lemma_plain_string("state"@);
    json::lemma_plain_string("disconnected"@);
    json::lemma_plain_string("reason"@);
    assert("{\"state\":\"disconnected\",\"reason\":"@ =~= seq!['{'] + json::member_and(
        "state"@,
        "disconnected"@,
        seq![','] + (json::json_string("reason"@) + seq![':']),
    ));
}

proof fn lemma_give_up_label()
    ensures
        "{\"state\":\"give_up\",\"reason\":"@ == seq!['{'] + json::member_and(
            "state"@,
            "give_up"@,
            seq![','] + (json::json_string("reason"@) + seq![':']),
        ),
{
    reveal_strlit("{\"state\":\"give_up\",\"reason\":");
    reveal_strlit("state");
    reveal_strlit("give_up");
    reveal_strlit("reason");
    json::lemma_plain_string("state"@);
    json::lemma_plain_string("give_up"@);
    json::lemma_plain_string("reason"@);
    assert("{\"state\":\"give_up\",\"reason\":"@ =~= seq!['{'] + json::member_and(
        "state"@,
        "give_up"@,
        seq![','] + (json::json_string("reason"@) + seq![':']),
    ));
}

/// The payload of a notice of disconnection reads as an object that names the state `disconnected`
/// and the reason, whatever the reason.
pub proof fn law_disconnection_reads_back(reason: Seq<char>)
    ensures
        json::read_object(payload_of(Notice::Disconnected(reason))) == Some(
            seq![("state"@, "disconnected"@), ("reason"@, reason)],
        ),
{
    lemma_disconnected_label();
    assert("}"@ =~= seq!['}']) by {
        reveal_strlit("}");
    }
    lemma_reason_label("disconnected"@, "{\"state\":\"disconnected\",\"reason\":"@, reason);
}

/// The payload of a notice that no further attempt is made reads as an object that names the state
/// `give_up` and the reason, whatever the reason.
pub proof fn law_giving_up_reads_back(reason: Seq<char>)
    ensures
        json::read_object(payload_of(Notice::GiveUp(reason))) == Some(
            seq![("state"@, "give_up"@), ("reason"@, reason)],
        ),
{
    lemma_give_up_label();
    assert("}"@ =~= seq!['}']) by {
        reveal_strlit("}");
    }
    lemma_reason_label("give_up"@, "{\"state\":\"give_up\",\"reason\":"@, reason);
}

/// The payload of a notice of connection reads as an object that names the state `connected` and
/// nothing else.
pub proof fn law_connection_reads_back()
    ensures
        json::read_object(payload_of(Notice::Connected)) == Some(seq![("state"@, "connected"@)]),
{
    let members = seq![("state"@, "connected"@)];
    json::law_object_reads_back(members);
    assert("{\"state\":\"connected\"}"@ =~= json::object_text(members)) by {
        reveal_strlit("{\"state\":\"connected\"}");
        reveal_strlit("state");
        reveal_strlit("connected");
        json::lemma_plain_string("state"@);
        json::lemma_plain_string("connected"@);
        assert(json::members_text(members) == json::member_and(
            "state"@,
            "connected"@,
            seq!['}'],
        ));
    }
}

/// The payload of a notice of an attempt is an object that names the state `connecting` first, and
/// then the attempt by a row of digits that stands for its number.
pub proof fn law_attempt_reads_back(attempt: nat)
    ensures
        payload_of(Notice::Connecting(attempt))[0] == '{',
        exists|digits: Seq<char>|
            #![trigger text::numeral_value(digits)]
            {
                &&& text::numeral_value(digits) == attempt
                &&& digits.len() > 0
                &&& forall|i: int| 0 <= i < digits.len() ==> '0' <= #[trigger] digits[i] <= '9'
                &&& json::read_member(payload_of(Notice::Connecting(attempt)).skip(1)) == Some(
                    (
                        "state"@,
                        "connecting"@,
                        seq![','] + (json::json_string("attempt"@) + (seq![':'] + (digits + seq!['}']))),
                    ),
                )
            },
{
    let digits = text::decimal(attempt);
    text::law_numeral_stands_for_its_number(attempt);
    let label = "{\"state\":\"connecting\",\"attempt\":"@;
    let named = seq![','] + (json::json_string("attempt"@) + seq![':']);
    assert(label =~= seq!['{'] + json::member_and("state"@, "connecting"@, named)) by {
        reveal_strlit("{\"state\":\"connecting\",\"attempt\":");
        reveal_strlit("state");
        reveal_strlit("connecting");
        reveal_strlit("attempt");
        json::lemma_plain_string("state"@);
        json::lemma_plain_string("connecting"@);
        json::lemma_plain_string("attempt"@);
    }
    assert("}"@ =~= seq!['}']) by {
        reveal_strlit("}");
    }
    let rest = seq![','] + (json::json_string("attempt"@) + (seq![':'] + (digits + seq!['}'])));
    assert(named + (digits + seq!['}']) =~= rest);
    let payload = payload_of(Notice::Connecting(attempt));
    assert(payload == label + (digits + seq!['}']));
    let first = seq![':'] + (json::json_string("connecting"@) + named);
    assert(label =~= seq!['{'] + (json::json_string("state"@) + first));
    assert(payload.skip(1) =~= json::member_and("state"@, "connecting"@, rest));
    json::law_member_is_read("state"@, "connecting"@, rest);
}

/// A notice that is held says what it holds.
pub proof fn law_notices_say_what_they_hold(attempt: u32, reason: String, notices: Seq<StateNotice>)
    ensures
        StateNotice::Connecting(attempt)@ == Notice::Connecting(attempt as nat),
        StateNotice::Connected@ == Notice::Connected,
        StateNotice::Disconnected(reason)@ == Notice::Disconnected(reason@),
        StateNotice::GiveUp(reason)@ == Notice::GiveUp(reason@),
        notices_view(notices).len() == notices.len(),
        forall|i: int|
            0 <= i < notices.len() ==> #[trigger] notices_view(notices)[i] == notices[i]@,
{
}

/// A failed attempt is told with all of its error, whatever that is. Where the limit is reached 1C is
/// told so and the run ends; else the wait is the one due after as many failures as there were, and
/// the count stays.
pub proof fn law_failure_is_told(r: Reconnector, error: String)
    ensures
        ({
            let event = ReconnectEvent::ConnectFailed(error);
            let told = Notice::Disconnected("ConnectError: "@ + error@);
            if r.max_attempts is Some && r.attempt >= r.max_attempts->0 {
                &&& r.notices_on(event) == seq![told, Notice::GiveUp("max attempts exceeded"@)]
                &&& r.action_on(event) == ReconnectAction::Finish(FinalOutcome::GiveUp)
            } else {
                &&& r.notices_on(event) == seq![told]
                &&& r.action_on(event) == ReconnectAction::Backoff { attempt: r.attempt }
            }
        }),
        r.after(ReconnectEvent::ConnectFailed(error)).attempt == r.attempt,
{
}

/// Each attempt has the number after the one before it, which is what 1C is told; a connection sets
/// the count back, and is told as such.
pub proof fn law_attempts_are_numbered(r: Reconnector)
    ensures
        ({
            let due = ReconnectEvent::Due { cancelled: false };
            &&& r.action_on(due) == ReconnectAction::Connect
            &&& r.attempt < u32::MAX ==> r.after(due).attempt == r.attempt + 1 && r.notices_on(due)
                == seq![Notice::Connecting((r.attempt + 1) as nat)]
            &&& r.attempt == u32::MAX ==> r.after(due).attempt == r.attempt && r.notices_on(due)
                == seq![Notice::Connecting(r.attempt as nat)]
            &&& r.action_on(ReconnectEvent::Connected) == ReconnectAction::RunTunnel
            &&& r.after(ReconnectEvent::Connected).attempt == 0
            &&& r.notices_on(ReconnectEvent::Connected) == seq![Notice::Connected]
        }),
{
}

/// The end of a tunnel is told by its own name, and all but the owner's request and the end of the
/// queue lead to a further attempt.
pub proof fn law_end_of_a_tunnel_is_told(r: Reconnector)
    ensures
        r.notices_on(ReconnectEvent::TunnelEnded(RunOutcome::Closed)) == seq![
            Notice::Disconnected("Closed"@),
        ],
        r.notices_on(ReconnectEvent::TunnelEnded(RunOutcome::InboundError)) == seq![
            Notice::Disconnected("InboundError"@),
        ],
        r.notices_on(ReconnectEvent::TunnelEnded(RunOutcome::SinkError)) == seq![
            Notice::Disconnected("SinkError"@),
        ],
        r.notices_on(ReconnectEvent::TunnelEnded(RunOutcome::OutboundDropped)) == seq![
            Notice::Disconnected("OutboundDropped"@),
        ],
        r.action_on(ReconnectEvent::TunnelEnded(RunOutcome::Closed)) == (ReconnectAction::Backoff {
            attempt: r.attempt,
        }),
        r.action_on(ReconnectEvent::TunnelEnded(RunOutcome::InboundError)) == (
        ReconnectAction::Backoff { attempt: r.attempt }),
        r.action_on(ReconnectEvent::TunnelEnded(RunOutcome::SinkError)) == (ReconnectAction::Backoff {
            attempt: r.attempt,
        }),
        r.action_on(ReconnectEvent::TunnelEnded(RunOutcome::OutboundDropped))
            == ReconnectAction::Finish(FinalOutcome::OutboundDropped),
        forall|outcome: RunOutcome|
            (#[trigger] r.after(ReconnectEvent::TunnelEnded(outcome))).attempt == r.attempt,
{
}

/// Which events each phase admits, whatever they hold.
pub proof fn law_each_phase_has_its_events(r: Reconnector, error: String, outcome: RunOutcome, cancelled: bool)
    ensures
        r.can_happen(ReconnectEvent::Due { cancelled }) <==> r.phase == Phase::Idle,
        r.can_happen(ReconnectEvent::Cancelled) <==> r.phase == Phase::Idle || r.phase
            == Phase::Connecting,
        r.can_happen(ReconnectEvent::Connected) <==> r.phase == Phase::Connecting,
        r.can_happen(ReconnectEvent::ConnectFailed(error)) <==> r.phase == Phase::Connecting,
        r.can_happen(ReconnectEvent::TunnelEnded(outcome)) <==> r.phase == Phase::Running,
{
}

} // verus!
