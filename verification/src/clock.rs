//! The Lamport clock that stamps writes.
//!
//! The clock is a single counter. Sending advances it by one, receiving a
//! timestamp moves it past both its own value and the timestamp, and
//! observing a timestamp raises it to at least that timestamp. It never
//! moves back. The counter is a `u64`; the operations that advance it ask
//! that there is room left, which over the life of a node there always is.

use vstd::prelude::*;

verus! {

/// The counter after a send.
pub open spec fn after_send(counter: nat) -> nat {
    counter + 1
}

/// The counter after receiving the timestamp `ts`.
pub open spec fn after_recv(counter: nat, ts: nat) -> nat {
    if counter >= ts {
        counter + 1
    } else {
        ts + 1
    }
}

/// The counter after observing the timestamp `ts`.
pub open spec fn after_observe(counter: nat, ts: nat) -> nat {
    if counter >= ts {
        counter
    } else {
        ts
    }
}

/// A Lamport clock.
#[derive(Debug)]
pub struct LamportClock {
    counter: u64,
}

impl View for LamportClock {
    type V = nat;

    closed spec fn view(&self) -> nat {
        self.counter as nat
    }
}

impl LamportClock {
    /// A clock at zero.
    pub fn new() -> (clock: Self)
        ensures
            clock@ == 0,
    {
        LamportClock { counter: 0 }
    }

    /// Advances the clock by one and returns the new value, the timestamp
    /// of a write issued here.
    pub fn tick_send(&mut self) -> (ts: u64)
        requires
            old(self)@ < u64::MAX,
        ensures
            final(self)@ == after_send(old(self)@),
            ts == final(self)@,
    {
        self.counter = self.counter + 1;
        self.counter
    }

    /// Moves the clock past both its own value and `ts`, and returns the
    /// new value.
    pub fn tick_recv(&mut self, ts: u64) -> (now: u64)
        requires
            old(self)@ < u64::MAX,
            ts < u64::MAX,
        ensures
            final(self)@ == after_recv(old(self)@, ts as nat),
            now == final(self)@,
    {
        let base: u64 = if self.counter >= ts {
            self.counter
        } else {
            ts
        };
        self.counter = base + 1;
        self.counter
    }

    /// Raises the clock to at least `ts`, without stepping past it.
    pub fn tick_observe(&mut self, ts: u64)
        ensures
            final(self)@ == after_observe(old(self)@, ts as nat),
    {
        if ts > self.counter {
            self.counter = ts;
        }
    }

    /// The current value; the clock is left as it is.
    pub fn tick_now(&self) -> (now: u64)
        ensures
            now == self@,
    {
        self.counter
    }
}

/// One use of a clock.
pub enum ClockEvent {
    Send,
    Recv(nat),
    Observe(nat),
}

/// The counter after one event.
pub open spec fn clock_step(counter: nat, event: ClockEvent) -> nat {
    match event {
        ClockEvent::Send => after_send(counter),
        ClockEvent::Recv(ts) => after_recv(counter, ts),
        ClockEvent::Observe(ts) => after_observe(counter, ts),
    }
}

/// The counter after a run of events, the first of them first.
pub open spec fn clock_run(counter: nat, events: Seq<ClockEvent>) -> nat
    decreases events.len(),
{
    if events.len() == 0 {
        counter
    } else {
        clock_step(clock_run(counter, events.drop_last()), events.last())
    }
}

/// The timestamp that an event hands on to the clock, if it hands one on.
pub open spec fn stamp_carried(event: ClockEvent) -> Option<nat> {
    match event {
        ClockEvent::Send => None,
        ClockEvent::Recv(ts) => Some(ts),
        ClockEvent::Observe(ts) => Some(ts),
    }
}

/// No run of events moves the clock back.
pub proof fn lemma_clock_never_rolls_back(counter: nat, events: Seq<ClockEvent>)
    ensures
        counter <= clock_run(counter, events),
    decreases events.len(),
{
    if events.len() > 0 {
        lemma_clock_never_rolls_back(counter, events.drop_last());
    }
}

/// A longer run leaves the clock at least where a shorter one left it, and
/// strictly further once the longer one holds a later send or receive.
pub proof fn lemma_clock_run_monotone(counter: nat, events: Seq<ClockEvent>, shorter: int)
    requires
        0 <= shorter <= events.len(),
    ensures
        clock_run(counter, events.take(shorter)) <= clock_run(counter, events),
        (exists|k: int| shorter <= k < events.len() && !(#[trigger] events[k] is Observe))
            ==> clock_run(counter, events.take(shorter)) < clock_run(counter, events),
    decreases events.len(),
{
    if shorter == events.len() {
        assert(events.take(shorter) =~= events);
    } else {
        let front = events.drop_last();
        assert(front.take(shorter) =~= events.take(shorter));
        lemma_clock_run_monotone(counter, front, shorter);
        if exists|k: int| shorter <= k < events.len() && !(#[trigger] events[k] is Observe) {
            let k = choose|k: int| shorter <= k < events.len() && !(#[trigger] events[k] is Observe);
            if k < front.len() {
                assert(front[k] == events[k]);
            }
        }
    }
}

/// Every timestamp that a send returns is larger than what any earlier
/// send or receive returned, and larger than any timestamp that an earlier
/// event handed on to the clock.
pub proof fn lemma_send_exceeds_history(
    counter: nat,
    events: Seq<ClockEvent>,
    earlier: int,
    later: int,
)
    requires
        0 <= earlier < later < events.len(),
        events[later] is Send,
    ensures
        !(events[earlier] is Observe) ==> clock_run(counter, events.take(earlier + 1)) < clock_run(
            counter,
            events.take(later + 1),
        ),
        stamp_carried(events[earlier]) matches Some(ts) ==> ts < clock_run(
            counter,
            events.take(later + 1),
        ),
{
    let upto = events.take(later + 1);
    assert(upto.take(earlier + 1) =~= events.take(earlier + 1));
    assert(upto[later] == events[later]);
    lemma_clock_run_monotone(counter, upto, earlier + 1);
    lemma_stamp_is_covered(counter, events.take(earlier + 1));
    assert(events.take(earlier + 1).last() == events[earlier]);
}

/// After an event that hands on a timestamp the clock is at least there.
pub proof fn lemma_stamp_is_covered(counter: nat, events: Seq<ClockEvent>)
    requires
        events.len() > 0,
    ensures
        stamp_carried(events.last()) matches Some(ts) ==> ts <= clock_run(counter, events),
        events.last() matches ClockEvent::Recv(ts) ==> ts < clock_run(counter, events),
{
}

} // verus!
