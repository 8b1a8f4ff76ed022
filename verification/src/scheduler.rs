//! The queue of delayed markers and the alarm that works it off.
//!
//! Markers wait in the order in which they were asked for. Only the head of
//! the queue has the alarm: it is armed when an entry arrives at an empty
//! queue, set to the next entry's delay each time it fires, and switched
//! off when the last entry has fired. An entry's delay therefore starts to
//! run when the entry becomes the head, and an entry fires after the sum of
//! all delays up to and including its own.

use crate::command::{Color, Command, Position};
use std::collections::VecDeque;
use vstd::prelude::*;

verus! {

/// What has to be done to the alarm after the queue has changed.
#[derive(Clone, Copy, Debug, PartialEq, Eq, Structural)]
pub enum AlarmRequest {
    /// Leave it as it is.
    Unchanged,
    /// Set its period, in seconds, and switch its interrupt on.
    Arm(u32),
    /// Set its period, in seconds, to that of the new head.
    Reprogram(u32),
    /// Switch it off.
    Disarm,
}

/// The queue and the alarm as plain values.
pub struct Pending {
    /// The markers that wait, each a [`Command::Blink`], oldest first.
    pub actions: Seq<Command>,
    /// The delay of each, in seconds.
    pub delays: Seq<u32>,
    /// The period the alarm runs with, if it runs.
    pub alarm: Option<u32>,
}

/// Something that happens to the queue.
pub enum Event {
    /// A delayed marker arrives.
    Enqueue(Color, Position, u32),
    /// The alarm fires.
    AlarmFire,
}

/// The alarm after a request has been carried out.
pub open spec fn alarm_after(alarm: Option<u32>, request: AlarmRequest) -> Option<u32> {
    match request {
        AlarmRequest::Unchanged => alarm,
        AlarmRequest::Arm(period) => Some(period),
        AlarmRequest::Reprogram(period) => Some(period),
        AlarmRequest::Disarm => None,
    }
}

/// The sum of the first `n` delays.
pub open spec fn total_delay(delays: Seq<u32>, n: int) -> int
    decreases n,
{
    if n <= 0 {
        0
    } else {
        total_delay(delays, n - 1) + delays[n - 1]
    }
}

impl Pending {
    /// Nothing waits and the alarm is off.
    pub open spec fn idle() -> Pending {
        Pending { actions: Seq::empty(), delays: Seq::empty(), alarm: None }
    }

    /// Every marker has its delay, every entry is a marker, and the alarm
    /// runs exactly while something waits, with the delay of the head.
    pub open spec fn wf(self) -> bool {
        &&& self.actions.len() == self.delays.len()
        &&& forall|i: int| 0 <= i < self.actions.len() ==> (#[trigger] self.actions[i]) is Blink
        &&& self.alarm == if self.delays.len() > 0 {
            Some(self.delays[0])
        } else {
            None
        }
    }

    /// What the alarm is asked for when an entry with this delay arrives.
    pub open spec fn enqueue_request(self, delay: u32) -> AlarmRequest {
        if self.delays.len() == 0 {
            AlarmRequest::Arm(delay)
        } else {
            AlarmRequest::Unchanged
        }
    }

    /// The state after a marker has been put at the end of the queue.
    pub open spec fn enqueue(self, color: Color, position: Position, delay: u32) -> Pending {
        Pending {
            actions: self.actions.push(Command::Blink(color, position)),
            delays: self.delays.push(delay),
            alarm: alarm_after(self.alarm, self.enqueue_request(delay)),
        }
    }

    /// What the alarm is asked for when it has fired.
    pub open spec fn fire_request(self) -> AlarmRequest {
        if self.delays.len() > 1 {
            AlarmRequest::Reprogram(self.delays[1])
        } else {
            AlarmRequest::Disarm
        }
    }

    /// The state after the alarm has fired and the head has left the queue.
    pub open spec fn fire(self) -> Pending {
        Pending {
            actions: self.actions.drop_first(),
            delays: self.delays.drop_first(),
            alarm: alarm_after(self.alarm, self.fire_request()),
        }
    }

    /// The state after an event. The alarm fires only while it runs.
    pub open spec fn step(self, event: Event) -> Pending {
        match event {
            Event::Enqueue(color, position, delay) => self.enqueue(color, position, delay),
            Event::AlarmFire => if self.alarm is Some {
                self.fire()
            } else {
                self
            },
        }
    }

    /// The state after a run of events.
    pub open spec fn run(self, events: Seq<Event>) -> Pending
        decreases events.len(),
    {
        if events.len() == 0 {
            self
        } else {
            self.run(events.drop_last()).step(events.last())
        }
    }

    /// The seconds from the moment the present head got the alarm to the
    /// moment entry `k` fires, the alarm running as [`Pending::fire`] sets it.
    pub open spec fn fire_time(self, k: int) -> int
        decreases k,
    {
        if k <= 0 {
            self.alarm->0 as int
        } else {
            self.alarm->0 + self.fire().fire_time(k - 1)
        }
    }

    /// The marker that the alarm hands out when it fires for the `k`-th
    /// time after the next.
    pub open spec fn fired(self, k: int) -> Command
        decreases k,
    {
        if k <= 0 {
            self.actions[0]
        } else {
            self.fire().fired(k - 1)
        }
    }
}

/// The queue of delayed markers, with the state of the alarm as the queue's
/// requests have left it.
pub struct Scheduler {
    pending_actions: VecDeque<Command>,
    pending_delays: VecDeque<u32>,
    alarm: Option<u32>,
}

impl View for Scheduler {
    type V = Pending;

    closed spec fn view(&self) -> Pending {
        Pending {
            actions: self.pending_actions@,
            delays: self.pending_delays@,
            alarm: self.alarm,
        }
    }
}

impl Scheduler {
    /// The invariant of the queue: see [`Pending::wf`].
    pub open spec fn wf(&self) -> bool {
        self@.wf()
    }

    /// An empty queue, the alarm off.
    pub fn new() -> (scheduler: Scheduler)
        ensures
            scheduler@ == Pending::idle(),
            scheduler.wf(),
    {
        Scheduler { pending_actions: VecDeque::new(), pending_delays: VecDeque::new(), alarm: None }
    }

    /// How many markers wait.
    pub fn len(&self) -> (n: usize)
        ensures
            n == self@.delays.len(),
    {
        broadcast use vstd::std_specs::vecdeque::group_vec_dequeue_axioms;

        self.pending_delays.len()
    }

    /// Whether nothing waits.
    pub fn is_empty(&self) -> (empty: bool)
        ensures
            empty == (self@.delays.len() == 0),
    {
        broadcast use vstd::std_specs::vecdeque::group_vec_dequeue_axioms;

        self.pending_delays.len() == 0
    }

    /// The period the alarm runs with, if it runs.
    pub fn armed_period(&self) -> (period: Option<u32>)
        ensures
            period == self@.alarm,
    {
        self.alarm
    }

    /// Puts a marker at the end of the queue. If the queue was empty the
    /// alarm has to be armed with the marker's delay; else it is left alone.
    pub fn enqueue(&mut self, color: Color, position: Position, delay: u32) -> (request:
        AlarmRequest)
        requires
            old(self).wf(),
        ensures
            final(self).wf(),
            final(self)@ == old(self)@.enqueue(color, position, delay),
            request == old(self)@.enqueue_request(delay),
            final(self)@.actions.len() == final(self)@.delays.len(),
    {
        broadcast use vstd::std_specs::vecdeque::group_vec_dequeue_axioms;

        self.pending_actions.push_back(Command::Blink(color, position));
        self.pending_delays.push_back(delay);
        let request = if self.pending_delays.len() == 1 {
            AlarmRequest::Arm(delay)
        } else {
            AlarmRequest::Unchanged
        };
        match request {
            AlarmRequest::Arm(period) => {
                self.alarm = Some(period);
            },
            _ => {},
        }
        request
    }

    /// Takes the head off the queue when the alarm has fired, and returns
    /// its marker to be drawn. If another entry waits the alarm has to be
    /// set to that entry's delay; if none does it has to be switched off,
    /// or it would fire again with nothing to do.
    pub fn on_alarm_fire(&mut self) -> (fired: (Command, AlarmRequest))
        requires
            old(self).wf(),
            old(self)@.delays.len() > 0,
        ensures
            final(self).wf(),
            final(self)@ == old(self)@.fire(),
            fired.0 == old(self)@.actions[0],
            fired.0 is Blink,
            fired.1 == old(self)@.fire_request(),
            final(self)@.actions.len() == final(self)@.delays.len(),
            final(self)@.delays.len() == 0 ==> fired.1 == AlarmRequest::Disarm,
            final(self)@.delays.len() == 0 ==> final(self)@.alarm is None,
    {
        broadcast use vstd::std_specs::vecdeque::group_vec_dequeue_axioms;

        let action = self.pending_actions.pop_front().unwrap();
        let _ = self.pending_delays.pop_front();
        let request = if self.pending_delays.len() > 0 {
            AlarmRequest::Reprogram(self.pending_delays[0])
        } else {
            AlarmRequest::Disarm
        };
        match request {
            AlarmRequest::Reprogram(period) => {
                self.alarm = Some(period);
            },
            _ => {
                self.alarm = None;
            },
        }
        assert(self.pending_actions@ =~= old(self).pending_actions@.drop_first());
        assert(self.pending_delays@ =~= old(self).pending_delays@.drop_first());
        (action, request)
    }
}

/// The invariant holds of the idle state and outlasts every arrival.
pub proof fn lemma_enqueue_keeps_wf(p: Pending, color: Color, position: Position, delay: u32)
    requires
        p.wf(),
    ensures
        Pending::idle().wf(),
        p.enqueue(color, position, delay).wf(),
        p.enqueue(color, position, delay).actions.len() == p.enqueue(
            color,
            position,
            delay,
        ).delays.len(),
{
}

/// The invariant outlasts every firing of the alarm. When the last entry
/// has fired the alarm is asked to stop and is off, and it does not fire
/// again until something arrives.
pub proof fn lemma_fire_keeps_wf(p: Pending)
    requires
        p.wf(),
        p.delays.len() > 0,
    ensures
        p.fire().wf(),
        p.fire().actions.len() == p.fire().delays.len(),
        p.delays.len() == 1 ==> p.fire_request() == AlarmRequest::Disarm && p.fire().alarm is None,
        p.delays.len() == 1 ==> p.fire().step(Event::AlarmFire) == p.fire(),
{
}

/// Whatever arrives, in whatever order, and whenever the alarm fires in
/// between: every marker in the queue has its delay, and the alarm runs
/// exactly while something waits.
pub proof fn lemma_run_keeps_wf(events: Seq<Event>)
    ensures
        Pending::idle().run(events).wf(),
        Pending::idle().run(events).actions.len() == Pending::idle().run(events).delays.len(),
        Pending::idle().run(events).alarm is Some <==> Pending::idle().run(events).delays.len()
            > 0,
    decreases events.len(),
{
    if events.len() > 0 {
        lemma_run_keeps_wf(events.drop_last());
        let before = Pending::idle().run(events.drop_last());
        match events.last() {
            Event::Enqueue(color, position, delay) => {
                lemma_enqueue_keeps_wf(before, color, position, delay);
            },
            Event::AlarmFire => {
                if before.alarm is Some {
                    lemma_fire_keeps_wf(before);
                }
            },
        }
    }
}

/// The alarm runs exactly while something waits, and where no delay is
/// zero its period is positive.
pub proof fn lemma_alarm_follows_queue(p: Pending)
    requires
        p.wf(),
    ensures
        p.alarm is Some <==> p.delays.len() > 0,
        p.alarm is Some ==> p.alarm->0 == p.delays[0],
        (forall|i: int| 0 <= i < p.delays.len() ==> #[trigger] p.delays[i] > 0) ==> (p.alarm is Some
            ==> p.alarm->0 > 0),
{
}

/// Leaving out the first delay takes it out of every later sum.
pub proof fn lemma_total_delay_shift(delays: Seq<u32>, n: int)
    requires
        0 <= n < delays.len(),
    ensures
        total_delay(delays, n + 1) == delays[0] + total_delay(delays.drop_first(), n),
    decreases n,
{
    if n > 0 {
        lemma_total_delay_shift(delays, n - 1);
        assert(delays.drop_first()[n - 1] == delays[n]);
    } else {
        assert(total_delay(delays, 1) == total_delay(delays, 0) + delays[0]);
    }
}

/// Entries fire in the order in which they arrived, and entry `k` fires
/// when the delays of all entries up to and including it have run, one
/// after the other.
pub proof fn lemma_fires_in_order(p: Pending, k: int)
    requires
        p.wf(),
        0 <= k < p.delays.len(),
    ensures
        p.fired(k) == p.actions[k],
        p.fire_time(k) == total_delay(p.delays, k + 1),
    decreases k,
{
    if k > 0 {
        lemma_fires_in_order(p.fire(), k - 1);
        lemma_total_delay_shift(p.delays, k);
    } else {
        assert(total_delay(p.delays, 1) == total_delay(p.delays, 0) + p.delays[0]);
    }
}

/// An entry that arrives while others wait changes nothing for those: each
/// still fires with its own marker and at its own time.
pub proof fn lemma_enqueue_keeps_order(
    p: Pending,
    color: Color,
    position: Position,
    delay: u32,
    k: int,
)
    requires
        p.wf(),
        0 <= k < p.delays.len(),
    ensures
        p.enqueue(color, position, delay).fired(k) == p.fired(k),
        p.enqueue(color, position, delay).fire_time(k) == p.fire_time(k),
{
    let q = p.enqueue(color, position, delay);
    lemma_fires_in_order(p, k);
    lemma_fires_in_order(q, k);
    lemma_total_delay_push(p.delays, delay, k + 1);
}

/// An entry that arrives fires last, with its own marker, when the delays
/// of all that wait and its own have run.
pub proof fn lemma_enqueued_fires_last(p: Pending, color: Color, position: Position, delay: u32)
    requires
        p.wf(),
    ensures
        p.enqueue(color, position, delay).fired(p.delays.len() as int) == Command::Blink(
            color,
            position,
        ),
        p.enqueue(color, position, delay).fire_time(p.delays.len() as int) == total_delay(
            p.delays,
            p.delays.len() as int,
        ) + delay,
{
    let q = p.enqueue(color, position, delay);
    let n = p.delays.len() as int;
    lemma_fires_in_order(q, n);
    lemma_total_delay_push(p.delays, delay, n);
}

/// A delay put at the end changes no sum over the delays before it.
pub proof fn lemma_total_delay_push(delays: Seq<u32>, delay: u32, n: int)
    requires
        0 <= n <= delays.len(),
    ensures
        total_delay(delays.push(delay), n) == total_delay(delays, n),
    decreases n,
{
    if n > 0 {
        lemma_total_delay_push(delays, delay, n - 1);
    }
}

/// The longest period, in seconds, that the alarm's time base can hold: the
/// alarm counts microseconds in 32 bits.
pub const MAX_PERIOD_SECONDS: u32 = 4294;

/// A number of seconds in microseconds.
pub open spec fn micros(seconds: u32) -> int {
    seconds * 1_000_000
}

/// `fugit::ExtU32::secs` at the time base of `fugit::MicrosDurationU32`,
/// read back with `Duration::ticks`. The duration holds its seconds times
/// one million in a `u32`; the product is formed in `u32`, so seconds that
/// would not fit are kept out.
#[verifier::external_body]
fn micros_of_secs(seconds: u32) -> (ticks: u32)
    requires
        micros(seconds) <= u32::MAX,
    ensures
        ticks == micros(seconds),
{
    let period: fugit::MicrosDurationU32 = fugit::ExtU32::secs(seconds);
    period.ticks()
}

/// The period to program into the alarm for a delay in seconds, in the
/// alarm's microseconds, or nothing if the alarm cannot wait that long.
pub fn period_micros(seconds: u32) -> (period: Option<u32>)
    ensures
        period == if seconds <= MAX_PERIOD_SECONDS {
            Some(micros(seconds) as u32)
        } else {
            None::<u32>
        },
{
    if seconds <= MAX_PERIOD_SECONDS {
        Some(micros_of_secs(seconds))
    } else {
        None
    }
}

} // verus!
