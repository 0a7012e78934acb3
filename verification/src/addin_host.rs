//! Delivery of external events to the 1C platform.
//!
//! [`AddinHost`] is the one way by which an event reaches the platform, so that everything above it
//! can be run against [`MockAddinHost`] as well. [`EmitPacer`] keeps two deliveries apart in time.
use std::time::{Duration, Instant};
use vstd::prelude::*;

verus! {

/// The component's name, under which every event reaches 1C.
pub const COMPONENT_NAME: &'static str = "WebTransport";

/// The shortest time between two deliveries to the platform, in nanoseconds: 150 ms. The platform
/// on Linux loses events that come closer together.
pub const EXTERNAL_EVENT_MIN_INTERVAL: u128 = 150_000_000;

/// One event offered to a host, and the host's answer.
pub ghost struct HostCall {
    pub event: Seq<char>,
    pub payload: Seq<char>,
    /// `false` where the platform's queue of events was full.
    pub accepted: bool,
}

/// A host that can deliver an external event to 1C.
///
/// What is proved of code that works through a host holds of a host that defines
/// [`AddinHost::calls`] and keeps the contract. A host in ordinary Rust cannot define it: such a host
/// is outside the contract, and what it does with an event is its own affair.
pub trait AddinHost: Send + Sync {
    /// Every event offered so far, in order. A host that keeps the contract has to define this; the
    /// text here only lets a host in ordinary Rust go without.
    open spec fn calls(&self) -> Seq<HostCall> {
        arbitrary()
    }

    /// Whether the host may answer the next event with `accepted`.
    open spec fn may_answer(&self, accepted: bool) -> bool {
        true
    }

    /// How many of the events offered so far the host has put out of its mind.
    open spec fn kept_from(&self) -> int {
        0
    }

    /// Offers an event to the platform; the host adds the component's name. Returns `false` where
    /// the platform's queue of events is full.
    fn external_event(&mut self, event: &str, payload: &str) -> (accepted: bool)
        ensures
            final(self).calls() == old(self).calls().push(
                (HostCall { event: event@, payload: payload@, accepted }),
            ),
            old(self).may_answer(accepted),
            final(self).kept_from() == old(self).kept_from(),
            forall|answer: bool| #[trigger]
                final(self).may_answer(answer) == old(self).may_answer(answer),
    ;
}

/// That a host is set as it was before: it may answer the same, and has forgotten no more.
pub open spec fn set_alike<H: AddinHost>(before: H, after: H) -> bool {
    &&& after.kept_from() == before.kept_from()
    &&& forall|answer: bool| #[trigger] after.may_answer(answer) == before.may_answer(answer)
}

/// The most characters of a payload that a log line shows.
pub const PREVIEW_CHARS: usize = 200;

/// What a log line shows of a payload: all of it, or its beginning and an ellipsis.
pub open spec fn preview_of(payload: Seq<char>) -> Seq<char> {
    if payload.len() <= PREVIEW_CHARS {
        payload
    } else {
        payload.take(PREVIEW_CHARS as int) + "…"@
    }
}

/// What a log line shows of a payload.
pub fn preview(payload: &str) -> (out: String)
    ensures
        out@ == preview_of(payload@),
{
    if payload.unicode_len() <= PREVIEW_CHARS {
        payload.to_owned()
    } else {
        let mut out = payload.substring_char(0, PREVIEW_CHARS).to_owned();
        out.append("…");
        out
    }
}

/// `std::time::Instant`: a reading of the clock, which nothing here looks into.
#[verifier::external_type_specification]
#[verifier::external_body]
pub struct ExInstant(std::time::Instant);

/// `std::time::Instant::now` reads the clock. Nothing is claimed of the reading.
pub assume_specification[ std::time::Instant::now ]() -> (now: Instant)
;

/// `std::time::Instant::elapsed` gives the time since an earlier reading, zero where the clock went
/// backwards. Nothing is claimed of how long that is.
pub assume_specification[ std::time::Instant::elapsed ](instant: &Instant) -> (elapsed: Duration)
;

/// `std::time::Duration::as_nanos` gives a length of time in whole nanoseconds. Lengths come from
/// the clock alone, so nothing is claimed of the number.
pub assume_specification[ std::time::Duration::as_nanos ](duration: &Duration) -> (nanos: u128)
;

/// Whether the clock can tell that `nanos` nanoseconds have passed since `instant`.
pub open spec fn clock_tells(instant: Instant, nanos: u128) -> bool {
    exists|elapsed: Duration| #[trigger]
        call_ensures(Instant::elapsed, (&instant,), elapsed) && call_ensures(
            Duration::as_nanos,
            (&elapsed,),
            nanos,
        )
}

/// Whether `instant` is a reading of the clock.
pub open spec fn clock_reads(instant: Instant) -> bool {
    call_ensures(Instant::now, (), instant)
}

/// Reads the clock when the result of an operation is there.
fn read_clock_after<R>(_result: &R) -> (now: Instant)
    ensures
        clock_reads(now),
{
    Instant::now()
}

/// Whether `now` can be a reading of the clock that was made when `result` was there. A result is
/// there only when the operation that gives it has ended.
pub closed spec fn read_when_there<R>(result: R, now: Instant) -> bool {
    call_ensures(read_clock_after::<R>, (&result,), now)
}

/// A way to wait.
pub trait PacingSleeper {
    /// The waits so far, in nanoseconds, in order. A sleeper that keeps the contract has to define
    /// this; the text here only lets a sleeper in ordinary Rust go without, which is then outside
    /// the contract.
    open spec fn slept(&self) -> Seq<u128> {
        arbitrary()
    }

    /// Waits for `nanos` nanoseconds.
    fn sleep(&mut self, nanos: u128)
        ensures
            final(self).slept() == old(self).slept().push(nanos),
    ;
}

/// How much of `min_interval` is left when `elapsed` of it has passed.
pub open spec fn time_left(min_interval: u128, elapsed: u128) -> u128 {
    if elapsed < min_interval {
        (min_interval - elapsed) as u128
    } else {
        0
    }
}

/// The waits after one more of `wait` nanoseconds; none is made where that is nothing.
pub open spec fn waited(slept: Seq<u128>, wait: u128) -> Seq<u128> {
    if wait > 0 {
        slept.push(wait)
    } else {
        slept
    }
}

/// How long a delivery has to wait, in nanoseconds, when the one before it lies `elapsed`
/// nanoseconds back; `None` where there was none before it.
pub fn remaining_wait(min_interval: u128, elapsed: Option<u128>) -> (wait: u128)
    ensures
        wait == match elapsed {
            Some(elapsed) => time_left(min_interval, elapsed),
            None => 0,
        },
{
    match elapsed {
        Some(elapsed) => if elapsed < min_interval {
            min_interval - elapsed
        } else {
            0
        },
        None => 0,
    }
}

/// A delivery that waits as told comes no sooner than the interval after the one before it, and
/// none waits longer than that takes.
pub proof fn law_interval_is_kept(min_interval: u128, elapsed: u128)
    ensures
        elapsed + time_left(min_interval, elapsed) >= min_interval,
        time_left(min_interval, elapsed) > 0 ==> elapsed + time_left(min_interval, elapsed)
            == min_interval,
{
}

/// Whether a delivery through `pacer` may wait for `wait` nanoseconds: for what is left of the
/// interval since the end of the last delivery by the clock, and not at all where there was none.
pub open spec fn waits_out(pacer: EmitPacer, wait: u128) -> bool {
    match pacer.last() {
        Some(previous) => exists|passed: u128| #[trigger]
            clock_tells(previous, passed) && wait == time_left(pacer.interval(), passed),
        None => wait == 0,
    }
}

/// That a delivery with this result has been made: the clock was read when the result was there, and
/// the reading is kept as the end of the last delivery.
pub open spec fn has_delivered<R>(before: EmitPacer, after: EmitPacer, result: R) -> bool {
    &&& after.last() matches Some(now) && clock_reads(now) && read_when_there(result, now)
    &&& after.interval() == before.interval()
}

/// Keeps deliveries apart. It is held exclusively while it waits and while the delivery runs, so
/// deliveries follow one another; the time of a delivery is taken when it has ended.
#[derive(Debug)]
pub struct EmitPacer {
    last_emit: Option<Instant>,
    min_interval: u128,
}

impl EmitPacer {
    /// The shortest time between two deliveries, in nanoseconds.
    pub closed spec fn interval(&self) -> u128 {
        self.min_interval
    }

    /// When the last delivery ended; `None` where there has been none.
    pub closed spec fn last(&self) -> Option<Instant> {
        self.last_emit
    }

    /// A pacer with the given interval in nanoseconds, before any delivery.
    pub fn new(min_interval: u128) -> (pacer: Self)
        ensures
            pacer.interval() == min_interval,
            pacer.last() is None,
    {
        EmitPacer { last_emit: None, min_interval }
    }

    /// Waits until the interval since the end of the last delivery has passed, then runs `op`.
    /// Returns how long it waited and what `op` returned. The first delivery does not wait. A later
    /// one waits for what is left of the interval by the clock, which is asked how much time has
    /// passed since the end of the last delivery; the end of this one is read from the clock.
    ///
    /// The wait comes before `op`: `op` may count on a sleeper that has made it, and may ask for
    /// nothing else. The clock is read after `op`, when its result is there.
    pub fn run<S, F, R>(&mut self, sleeper: &mut S, op: F) -> (out: (u128, R)) where
        S: PacingSleeper,
        F: FnOnce() -> R
        requires
            match old(self).last() {
                Some(previous) => forall|s: S, passed: u128|
                    clock_tells(previous, passed) && #[trigger] s.slept() == waited(
                        old(sleeper).slept(),
                        #[trigger] time_left(old(self).interval(), passed),
                    ) ==> op.requires(()),
                None => forall|s: S| #[trigger]
                    s.slept() == old(sleeper).slept() ==> op.requires(()),
            },
        ensures
            op.ensures((), out.1),
            waits_out(*old(self), out.0),
            out.0 <= old(self).interval(),
            final(sleeper).slept() == waited(old(sleeper).slept(), out.0),
            has_delivered(*old(self), *final(self), out.1),
    {
        let elapsed: Option<u128> = match &self.last_emit {
            Some(previous) => {
                let since: Duration = previous.elapsed();
                let passed: u128 = since.as_nanos();
                assert(clock_tells(*previous, passed));
                assert(time_left(self.interval(), passed) <= self.interval());
                Some(passed)
            },
            None => None,
        };
        self.run_after(elapsed, sleeper, op)
    }

    /// Waits as [`remaining_wait`] says for a last delivery that ended `elapsed` nanoseconds ago,
    /// then runs `op`, and reads from the clock when that ended. Returns how long it waited and what
    /// `op` returned.
    ///
    /// The wait comes before `op`: `op` may count on a sleeper that has made it, and may ask for
    /// nothing else. The clock is read after `op`, when its result is there.
    pub fn run_after<S, F, R>(&mut self, elapsed: Option<u128>, sleeper: &mut S, op: F) -> (out: (
        u128,
        R,
    )) where S: PacingSleeper, F: FnOnce() -> R
        requires
            forall|s: S| #[trigger]
                s.slept() == waited(
                    old(sleeper).slept(),
                    match elapsed {
                        Some(elapsed) => time_left(old(self).interval(), elapsed),
                        None => 0,
                    },
                ) ==> op.requires(()),
        ensures
            op.ensures((), out.1),
            out.0 == match elapsed {
                Some(elapsed) => time_left(old(self).interval(), elapsed),
                None => 0,
            },
            final(sleeper).slept() == waited(old(sleeper).slept(), out.0),
            has_delivered(*old(self), *final(self), out.1),
    {
        let wait: u128 = remaining_wait(self.min_interval, elapsed);
        if wait > 0 {
            sleeper.sleep(wait);
        }
        assert(sleeper.slept() == waited(old(sleeper).slept(), wait));
        let result = op();
        self.last_emit = Some(read_clock_after(&result));
        (wait, result)
    }
}

/// A delivery that follows another waits until the interval since the end of the other has passed by
/// the clock, however long the other took: the time that the clock tells, counted from when the
/// other's result was there, and the wait make up the interval at least.
pub proof fn law_deliveries_lie_apart<R>(
    before: EmitPacer,
    between: EmitPacer,
    first_result: R,
    second_wait: u128,
)
    requires
        has_delivered(before, between, first_result),
        waits_out(between, second_wait),
    ensures
        exists|ended: Instant, passed: u128|
            #![trigger clock_tells(ended, passed)]
            {
                &&& between.last() == Some(ended)
                &&& read_when_there(first_result, ended)
                &&& clock_tells(ended, passed)
                &&& passed + second_wait >= before.interval()
                &&& second_wait > 0 ==> passed + second_wait == before.interval()
            },
{
    let ended = between.last()->0;
    let passed = choose|passed: u128| #[trigger]
        clock_tells(ended, passed) && second_wait == time_left(between.interval(), passed);
    assert(clock_tells(ended, passed));
}

impl Default for EmitPacer {
    fn default() -> (pacer: Self)
        ensures
            pacer.interval() == 0,
            pacer.last() is None,
    {
        EmitPacer::new(0)
    }
}

/// The events among `calls` that the host took, in order.
pub open spec fn accepted_events(calls: Seq<HostCall>) -> Seq<(Seq<char>, Seq<char>)>
    decreases calls.len(),
{
    if calls.len() == 0 {
        Seq::empty()
    } else {
        let earlier = accepted_events(calls.drop_last());
        if calls.last().accepted {
            earlier.push((calls.last().event, calls.last().payload))
        } else {
            earlier
        }
    }
}

/// A host in memory: it keeps the events that it takes, and takes none while its queue is set to be
/// full.
pub struct MockAddinHost {
    inner: MockState,
}

struct MockState {
    events: Vec<(String, String)>,
    queue_full: bool,
    calls: Ghost<Seq<HostCall>>,
    cleared_at: Ghost<int>,
}

impl MockState {
    /// The events kept are those taken since the last clearing.
    spec fn keeps_what_it_takes(&self) -> bool {
        &&& 0 <= self.cleared_at@ <= self.calls@.len()
        &&& self.events.deep_view() == accepted_events(self.calls@.skip(self.cleared_at@))
    }

    fn fresh() -> (state: Self)
        ensures
            state.keeps_what_it_takes(),
            state.calls@ == Seq::<HostCall>::empty(),
            state.events.deep_view() == Seq::<(Seq<char>, Seq<char>)>::empty(),
            state.cleared_at@ == 0,
            !state.queue_full,
    {
        let state = MockState {
            events: Vec::new(),
            queue_full: false,
            calls: Ghost(Seq::empty()),
            cleared_at: Ghost(0),
        };
        assert(state.events.deep_view() =~= accepted_events(Seq::<HostCall>::empty().skip(0)));
        state
    }
}

impl MockAddinHost {
    /// The events kept, each with its payload.
    pub closed spec fn recorded(&self) -> Seq<(Seq<char>, Seq<char>)> {
        self.inner.events.deep_view()
    }

    /// Whether the queue is set to be full.
    pub closed spec fn is_full(&self) -> bool {
        self.inner.queue_full
    }

    /// How many events had been offered when the kept ones were last cleared.
    pub closed spec fn cleared_at(&self) -> int {
        self.inner.cleared_at@
    }

    #[verifier::type_invariant]
    spec fn well_kept(&self) -> bool {
        self.inner.keeps_what_it_takes()
    }

    /// A host to which nothing has been offered.
    pub fn new() -> (host: Self)
        ensures
            host.calls() == Seq::<HostCall>::empty(),
            host.recorded() == Seq::<(Seq<char>, Seq<char>)>::empty(),
            host.cleared_at() == 0,
            !host.is_full(),
    {
        MockAddinHost { inner: MockState::fresh() }
    }

    /// Sets whether the queue is full: while it is, no event is taken.
    pub fn set_queue_full(&mut self, value: bool)
        ensures
            final(self).is_full() == value,
            final(self).recorded() == old(self).recorded(),
            final(self).calls() == old(self).calls(),
            final(self).cleared_at() == old(self).cleared_at(),
    {
        proof {
            use_type_invariant(&*self);
        }
        self.inner.queue_full = value;
    }

    /// The events taken since the last [`MockAddinHost::clear`], in order.
    pub fn events(&self) -> (out: Vec<(String, String)>)
        ensures
            out.deep_view() == self.recorded(),
            0 <= self.cleared_at() <= self.calls().len(),
            self.recorded() == accepted_events(self.calls().skip(self.cleared_at())),
    {
        proof {
            use_type_invariant(self);
        }
        let kept = &self.inner.events;
        let mut out: Vec<(String, String)> = Vec::new();
        let mut i: usize = 0;
        while i < kept.len()
            invariant
                i <= kept.len(),
                out.deep_view() == kept.deep_view().take(i as int),
            decreases kept.len() - i,
        {
            let ghost before = out.deep_view();
            out.push((kept[i].0.clone(), kept[i].1.clone()));
            assert(out.deep_view() =~= before.push(kept@[i as int].deep_view()));
            assert(kept.deep_view()[i as int] == kept@[i as int].deep_view());
            i = i + 1;
            assert(out.deep_view() =~= kept.deep_view().take(i as int));
        }
        assert(kept.deep_view().take(i as int) =~= kept.deep_view());
        out
    }

    /// Forgets the events taken so far.
    pub fn clear(&mut self)
        ensures
            final(self).recorded() == Seq::<(Seq<char>, Seq<char>)>::empty(),
            final(self).calls() == old(self).calls(),
            final(self).cleared_at() == old(self).calls().len(),
            final(self).is_full() == old(self).is_full(),
    {
        let mut state: MockState = MockState::fresh();
        std::mem::swap(&mut state, &mut self.inner);
        let ghost calls = state.calls@;
        state.events.clear();
        state.cleared_at = Ghost(calls.len() as int);
        assert(state.events.deep_view() =~= accepted_events(calls.skip(calls.len() as int)));
        self.inner = state;
    }
}

impl Default for MockAddinHost {
    fn default() -> (host: Self)
        ensures
            host.calls() == Seq::<HostCall>::empty(),
            host.recorded() == Seq::<(Seq<char>, Seq<char>)>::empty(),
            host.cleared_at() == 0,
            !host.is_full(),
    {
        MockAddinHost::new()
    }
}

impl AddinHost for MockAddinHost {
    closed spec fn calls(&self) -> Seq<HostCall> {
        self.inner.calls@
    }

    open spec fn may_answer(&self, accepted: bool) -> bool {
        accepted == !self.is_full()
    }

    open spec fn kept_from(&self) -> int {
        self.cleared_at()
    }

    fn external_event(&mut self, event: &str, payload: &str) -> (accepted: bool)
        ensures
            accepted == !old(self).is_full(),
            final(self).recorded() == if accepted {
                old(self).recorded().push((event@, payload@))
            } else {
                old(self).recorded()
            },
            final(self).is_full() == old(self).is_full(),
            final(self).cleared_at() == old(self).cleared_at(),
    {
        proof {
            use_type_invariant(&*self);
        }
        let mut state: MockState = MockState::fresh();
        std::mem::swap(&mut state, &mut self.inner);
        let accepted: bool = !state.queue_full;
        let ghost kept = state.events.deep_view();
        let ghost call = HostCall { event: event@, payload: payload@, accepted };
        let ghost calls = state.calls@.push(call);
        let ghost mark = state.cleared_at@;
        proof {
            assert(calls.skip(mark).drop_last() =~= state.calls@.skip(mark));
            assert(calls.skip(mark).last() == call);
        }
        if accepted {
            state.events.push((event.to_owned(), payload.to_owned()));
            assert(state.events.deep_view() =~= kept.push((event@, payload@)));
        }
        state.calls = Ghost(calls);
        self.inner = state;
        accepted
    }
}

/// A log line shows a payload of up to 200 characters whole, and of a longer one the first 200 and an
/// ellipsis.
pub proof fn law_preview_shows_the_beginning(payload: Seq<char>)
    ensures
        payload.len() <= 200 ==> preview_of(payload) == payload,
        payload.len() > 200 ==> preview_of(payload).len() == 201 && preview_of(payload)[200]
            == '\u{2026}',
        forall|i: int|
            0 <= i < payload.len() && i < 200 ==> #[trigger] preview_of(payload)[i] == payload[i],
{
    reveal_strlit("…");
}

/// A wait is made exactly where there is something to wait for, with all of its length.
pub proof fn law_waits_are_made_whole(slept: Seq<u128>, wait: u128)
    ensures
        wait > 0 ==> waited(slept, wait).len() == slept.len() + 1 && waited(slept, wait).last()
            == wait && waited(slept, wait).drop_last() == slept,
        wait == 0 ==> waited(slept, wait) == slept,
{
}

/// The events that a host took are those that it answered so, each once, in order and as it was.
pub proof fn law_taken_events_are_the_accepted(calls: Seq<HostCall>, call: HostCall)
    ensures
        accepted_events(Seq::<HostCall>::empty()) == Seq::<(Seq<char>, Seq<char>)>::empty(),
        call.accepted ==> accepted_events(calls.push(call)) == accepted_events(calls).push(
            (call.event, call.payload),
        ),
        !call.accepted ==> accepted_events(calls.push(call)) == accepted_events(calls),
{
    assert(calls.push(call).drop_last() =~= calls);
}

/// The first delivery does not wait, and a later one never waits longer than the interval.
pub proof fn law_first_delivery_does_not_wait(pacer: EmitPacer, wait: u128)
    requires
        waits_out(pacer, wait),
    ensures
        pacer.last() is None ==> wait == 0,
        wait <= pacer.interval(),
{
}

/// What counts as a reading of the clock is one, also where it is made when a result is there; and
/// the time that has passed is what the clock was asked for.
pub proof fn law_readings_come_from_the_clock<R>(result: R, now: Instant, earlier: Instant, passed: u128)
    requires
        read_when_there(result, now),
        clock_tells(earlier, passed),
    ensures
        call_ensures(Instant::now, (), now),
        exists|since: Duration| #[trigger]
            call_ensures(Instant::elapsed, (&earlier,), since) && call_ensures(
                Duration::as_nanos,
                (&since,),
                passed,
            ),
{
}

/// A delivery leaves the interval as it was, and its end as the last one.
pub proof fn law_delivery_is_remembered<R>(before: EmitPacer, after: EmitPacer, result: R)
    requires
        has_delivered(before, after, result),
    ensures
        after.interval() == before.interval(),
        after.last() matches Some(now) && read_when_there(result, now),
{
}

} // verus!
