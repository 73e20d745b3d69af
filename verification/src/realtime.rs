//! The change notifier: what it emits for a notification or a polled row,
//! its bounded queue, and the state machine that moves between a live
//! subscription and polling with exponential backoff.
//!
//! The notifier itself performs no I/O. Its owner carries out the action that
//! `Notifier::step` returns and hands back what happened.

use crate::text::same_text;
use std::collections::VecDeque;
use vstd::prelude::*;

verus! {

/// Something changed in the store that the session may want to show.
#[derive(Debug, Clone, Copy, PartialEq, Eq)]
pub enum Event {
    /// A message was created.
    Message { id: i64, room_id: i64 },
}

/// The fields of one push notification, once its text has been decoded.
#[derive(Debug, Clone)]
pub struct NotifyPayload {
    /// The type tag; only `"msg"` is recognised.
    pub t: String,
    pub room_id: i64,
    pub id: i64,
}

/// One row of a poll for new messages. `created_at` counts microseconds.
#[derive(Debug, Clone, Copy)]
pub struct MinimalMsg {
    pub id: i64,
    pub room_id: i64,
    pub created_at: i64,
}

/// The shortest and the longest backoff, the pause after each poll (all in
/// seconds), the page size of a poll and the capacity of the event queue.
pub const BACKOFF_MIN_SECS: u64 = 1;

pub const BACKOFF_MAX_SECS: u64 = 30;

pub const POLL_STEP_SECS: u64 = 2;

pub const POLL_PAGE: i64 = 100;

pub const QUEUE_CAPACITY: usize = 128;

/// The event that a payload with this tag stands for, if any.
pub open spec fn event_for(tag: Seq<char>, room_id: i64, id: i64) -> Option<Event> {
    if tag == "msg"@ {
        Some(Event::Message { id, room_id })
    } else {
        None
    }
}

/// The event for a decoded notification; none if its tag is not `"msg"`.
pub fn event_of_payload(p: &NotifyPayload) -> (r: Option<Event>)
    ensures
        r == event_for(p.t@, p.room_id, p.id),
{
    if same_text(p.t.as_str(), "msg") {
        Some(Event::Message { id: p.id, room_id: p.room_id })
    } else {
        None
    }
}

/// A bounded first-in first-out queue of events. When it is full, offering
/// an event drops the oldest one.
pub struct EventQueue {
    items: VecDeque<Event>,
    capacity: usize,
}

/// The content of a queue after `ev` is offered to it.
pub open spec fn offered(items: Seq<Event>, capacity: nat, ev: Event) -> Seq<Event> {
    if capacity == 0 {
        items
    } else if items.len() >= capacity {
        items.drop_first().push(ev)
    } else {
        items.push(ev)
    }
}

/// What leaves a queue when `ev` is offered to it: the oldest event if the
/// queue is full, `ev` itself if the queue can hold nothing.
pub open spec fn displaced(items: Seq<Event>, capacity: nat, ev: Event) -> Option<Event> {
    if capacity == 0 {
        Some(ev)
    } else if items.len() >= capacity {
        Some(items[0])
    } else {
        None
    }
}

impl View for EventQueue {
    type V = Seq<Event>;

    closed spec fn view(&self) -> Seq<Event> {
        self.items@
    }
}

impl EventQueue {
    /// The most events the queue holds.
    pub closed spec fn cap(&self) -> nat {
        self.capacity as nat
    }

    /// The queue never holds more than its capacity.
    pub closed spec fn wf(&self) -> bool {
        self.items@.len() <= self.capacity
    }

    /// An empty queue that holds up to `capacity` events.
    pub fn new(capacity: usize) -> (q: EventQueue)
        ensures
            q.wf(),
            q@ == Seq::<Event>::empty(),
            q.cap() == capacity,
    {
        EventQueue { items: VecDeque::new(), capacity }
    }

    /// How many events wait in the queue.
    pub fn len(&self) -> (n: usize)
        requires
            self.wf(),
        ensures
            n == self@.len(),
            n <= self.cap(),
    {
        self.items.len()
    }

    /// Adds `ev` at the back without ever waiting. A full queue makes room
    /// by dropping its oldest event, which is returned.
    pub fn offer(&mut self, ev: Event) -> (dropped: Option<Event>)
        requires
            old(self).wf(),
        ensures
            final(self).wf(),
            final(self).cap() == old(self).cap(),
            final(self)@ == offered(old(self)@, old(self).cap(), ev),
            dropped == displaced(old(self)@, old(self).cap(), ev),
    {
        if self.capacity == 0 {
            return Some(ev);
        }
        let dropped = if self.items.len() >= self.capacity {
            self.items.pop_front()
        } else {
            None
        };
        self.items.push_back(ev);
        dropped
    }

    /// Takes the oldest event, if there is one.
    pub fn try_recv(&mut self) -> (r: Option<Event>)
        requires
            old(self).wf(),
        ensures
            final(self).wf(),
            final(self).cap() == old(self).cap(),
            old(self)@.len() == 0 ==> r.is_none() && final(self)@ == old(self)@,
            old(self)@.len() > 0 ==> r == Some(old(self)@[0]) && final(self)@ == old(
                self,
            )@.drop_first(),
    {
        let r = self.items.pop_front();
        proof {
            if old(self)@.len() > 0 {
                assert(self.items@ == old(self)@.drop_first());
            }
        }
        r
    }

    /// Takes every waiting event, oldest first, and leaves the queue empty.
    pub fn drain(&mut self) -> (out: Vec<Event>)
        requires
            old(self).wf(),
        ensures
            final(self).wf(),
            final(self).cap() == old(self).cap(),
            out@ == old(self)@,
            final(self)@ == Seq::<Event>::empty(),
    {
        let mut out: Vec<Event> = Vec::new();
        loop
            invariant
                self.wf(),
                self.capacity == old(self).capacity,
                out@ + self.items@ == old(self).items@,
            ensures
                self.items@.len() == 0,
            decreases self.items@.len(),
        {
            let ghost before = self.items@;
            match self.items.pop_front() {
                Some(ev) => {
                    out.push(ev);
                    assert(out@ + self.items@ =~= old(self).items@) by {
                        assert(before == seq![ev] + self.items@);
                    }
                },
                None => {
                    break ;
                },
            }
        }
        assert(out@ =~= old(self).items@);
        out
    }
}

/// What the notifier is waiting for.
#[derive(Debug, Clone, Copy, PartialEq, Eq)]
pub enum Phase {
    /// An attempt to open a subscription is under way.
    Connecting,
    /// A subscription is open and the next notification is awaited.
    Subscribed,
    /// The subscription is down and a poll is under way.
    Polling,
    /// The subscription is down and the pause after a poll is running.
    Sleeping,
}

/// The notifier's state. `backoff_secs` is the delay that the next failure
/// will use, `steps_left` the polls still to make before the subscription is
/// tried again, `last_seen` the newest creation time seen by a poll.
#[derive(Debug, Clone, Copy)]
pub struct Notifier {
    pub phase: Phase,
    pub backoff_secs: u64,
    pub steps_left: u64,
    pub last_seen: i64,
}

/// What happened to the action that the notifier asked for.
#[derive(Debug, Clone)]
pub enum NotifierInput {
    /// The subscription was opened.
    Subscribed,
    /// Opening the subscription failed, or the open subscription broke.
    TransportError,
    /// A notification arrived; `None` where its payload could not be decoded.
    Notification(Option<NotifyPayload>),
    /// A poll returned these rows, oldest first.
    PollRows(Vec<MinimalMsg>),
    /// A poll failed.
    PollFailed,
    /// The pause after a poll is over.
    SleepDone,
}

/// What the notifier's owner is to do next.
#[derive(Debug, Clone, Copy, PartialEq, Eq)]
pub enum NotifierAction {
    /// Open a subscription.
    Subscribe,
    /// Wait for the next notification.
    Receive,
    /// Ask for up to `limit` messages created after `after`, oldest first.
    Poll { after: i64, limit: i64 },
    /// Pause for `secs` seconds.
    Sleep { secs: u64 },
}

/// The outcome of one step: the events to forward and the next action.
#[derive(Debug, Clone)]
pub struct Step {
    pub emit: Vec<Event>,
    pub next: NotifierAction,
}

/// The delay, in seconds, that a failure uses when the backoff stands at `b`.
pub open spec fn delay_secs(b: u64) -> u64 {
    if b <= BACKOFF_MAX_SECS {
        b
    } else {
        BACKOFF_MAX_SECS
    }
}

/// How many polls fill a delay of `d` seconds: one every two seconds, and at
/// least one.
pub open spec fn poll_steps(d: u64) -> u64 {
    if d / POLL_STEP_SECS >= 1 {
        d / POLL_STEP_SECS
    } else {
        1
    }
}

/// The backoff after a failure: doubled, and capped at thirty seconds.
pub open spec fn next_backoff(b: u64) -> u64 {
    if b * 2 >= BACKOFF_MAX_SECS {
        BACKOFF_MAX_SECS
    } else {
        (b * 2) as u64
    }
}

/// The delay, in seconds, of the failure that follows `k` failures in a row,
/// counted from a fresh or freshly reset notifier.
pub open spec fn backoff_after_failures(k: nat) -> u64
    decreases k,
{
    if k == 0 {
        BACKOFF_MIN_SECS
    } else {
        next_backoff(backoff_after_failures((k - 1) as nat))
    }
}

/// The newest creation time among `seen` and the rows.
pub open spec fn latest_seen(seen: i64, rows: Seq<MinimalMsg>) -> i64
    decreases rows.len(),
{
    if rows.len() == 0 {
        seen
    } else {
        let before = latest_seen(seen, rows.drop_last());
        if rows.last().created_at > before {
            rows.last().created_at
        } else {
            before
        }
    }
}

/// One event per polled row, in the order of the rows.
pub open spec fn events_of_rows(rows: Seq<MinimalMsg>) -> Seq<Event> {
    Seq::new(rows.len(), |i: int| Event::Message { id: rows[i].id, room_id: rows[i].room_id })
}

/// The action that a notifier in this state is waiting on.
pub open spec fn awaited(n: Notifier) -> NotifierAction {
    match n.phase {
        Phase::Connecting => NotifierAction::Subscribe,
        Phase::Subscribed => NotifierAction::Receive,
        Phase::Polling => NotifierAction::Poll { after: n.last_seen, limit: POLL_PAGE },
        Phase::Sleeping => NotifierAction::Sleep { secs: POLL_STEP_SECS },
    }
}

/// The state after a failed or broken subscription: polling begins, for as
/// many steps as the current delay holds, and the backoff doubles.
pub open spec fn degraded(n: Notifier) -> Notifier {
    Notifier {
        phase: Phase::Polling,
        backoff_secs: next_backoff(n.backoff_secs),
        steps_left: poll_steps(delay_secs(n.backoff_secs)),
        last_seen: n.last_seen,
    }
}

/// The state after the pause that follows a poll: the next poll, or, when
/// the steps are used up, another attempt to subscribe.
pub open spec fn rested(n: Notifier) -> Notifier {
    if n.steps_left > 1 {
        Notifier { phase: Phase::Polling, steps_left: (n.steps_left - 1) as u64, ..n }
    } else {
        Notifier { phase: Phase::Connecting, steps_left: 0, ..n }
    }
}

/// The state that follows `n` on `input`. An input that does not answer the
/// awaited action changes nothing.
pub open spec fn next_state(n: Notifier, input: NotifierInput) -> Notifier {
    match (n.phase, input) {
        (Phase::Connecting, NotifierInput::Subscribed) => Notifier {
            phase: Phase::Subscribed,
            backoff_secs: BACKOFF_MIN_SECS,
            ..n
        },
        (Phase::Connecting, NotifierInput::TransportError) => degraded(n),
        (Phase::Subscribed, NotifierInput::TransportError) => degraded(n),
        (Phase::Polling, NotifierInput::PollRows(rows)) => Notifier {
            phase: Phase::Sleeping,
            last_seen: latest_seen(n.last_seen, rows@),
            ..n
        },
        (Phase::Polling, NotifierInput::PollFailed) => Notifier { phase: Phase::Sleeping, ..n },
        (Phase::Sleeping, NotifierInput::SleepDone) => rested(n),
        _ => n,
    }
}

/// The events that `n` forwards on `input`: one for a recognised
/// notification while subscribed, one per row of a poll while polling.
pub open spec fn emitted(n: Notifier, input: NotifierInput) -> Seq<Event> {
    match (n.phase, input) {
        (Phase::Subscribed, NotifierInput::Notification(Some(p))) => match event_for(
            p.t@,
            p.room_id,
            p.id,
        ) {
            Some(ev) => seq![ev],
            None => Seq::empty(),
        },
        (Phase::Polling, NotifierInput::PollRows(rows)) => events_of_rows(rows@),
        _ => Seq::empty(),
    }
}

impl Notifier {
    /// The backoff lies between one and thirty seconds, and a delay never
    /// holds more than fifteen polls.
    pub open spec fn wf(&self) -> bool {
        &&& BACKOFF_MIN_SECS <= self.backoff_secs <= BACKOFF_MAX_SECS
        &&& self.steps_left <= BACKOFF_MAX_SECS / POLL_STEP_SECS
    }

    /// A notifier that has seen nothing newer than `now` and is about to
    /// subscribe for the first time.
    pub fn new(now: i64) -> (n: Notifier)
        ensures
            n == (Notifier {
                phase: Phase::Connecting,
                backoff_secs: BACKOFF_MIN_SECS,
                steps_left: 0,
                last_seen: now,
            }),
            n.wf(),
    {
        Notifier {
            phase: Phase::Connecting,
            backoff_secs: BACKOFF_MIN_SECS,
            steps_left: 0,
            last_seen: now,
        }
    }

    /// The action that this notifier is waiting on.
    pub fn pending(&self) -> (a: NotifierAction)
        ensures
            a == awaited(*self),
    {
        match self.phase {
            Phase::Connecting => NotifierAction::Subscribe,
            Phase::Subscribed => NotifierAction::Receive,
            Phase::Polling => NotifierAction::Poll { after: self.last_seen, limit: POLL_PAGE },
            Phase::Sleeping => NotifierAction::Sleep { secs: POLL_STEP_SECS },
        }
    }

    fn degrade(&mut self)
        ensures
            *final(self) == degraded(*old(self)),
    {
        let d: u64 = if self.backoff_secs <= BACKOFF_MAX_SECS {
            self.backoff_secs
        } else {
            BACKOFF_MAX_SECS
        };
        let steps: u64 = if d / POLL_STEP_SECS >= 1 {
            d / POLL_STEP_SECS
        } else {
            1
        };
        self.backoff_secs = if self.backoff_secs >= BACKOFF_MAX_SECS / 2 {
            BACKOFF_MAX_SECS
        } else {
            self.backoff_secs * 2
        };
        self.steps_left = steps;
        self.phase = Phase::Polling;
    }

    /// Takes what happened to the awaited action, moves to the next state,
    /// and returns the events to forward and the next action.
    pub fn step(&mut self, input: NotifierInput) -> (r: Step)
        ensures
            *final(self) == next_state(*old(self), input),
            r.emit@ == emitted(*old(self), input),
            r.next == awaited(*final(self)),
            old(self).wf() ==> final(self).wf(),
    {
        let mut emit: Vec<Event> = Vec::new();
        match (self.phase, input) {
            (Phase::Connecting, NotifierInput::Subscribed) => {
                self.phase = Phase::Subscribed;
                self.backoff_secs = BACKOFF_MIN_SECS;
            },
            (Phase::Connecting, NotifierInput::TransportError) => {
                self.degrade();
            },
            (Phase::Subscribed, NotifierInput::TransportError) => {
                self.degrade();
            },
            (Phase::Subscribed, NotifierInput::Notification(Some(p))) => {
                match event_of_payload(&p) {
                    Some(ev) => {
                        emit.push(ev);
                        assert(emit@ =~= seq![ev]);
                    },
                    None => {},
                }
            },
            (Phase::Polling, NotifierInput::PollRows(rows)) => {
                let mut seen: i64 = self.last_seen;
                let mut i: usize = 0;
                while i < rows.len()
                    invariant
                        i <= rows.len(),
                        seen == latest_seen(old(self).last_seen, rows@.take(i as int)),
                        emit@ == events_of_rows(rows@.take(i as int)),
                    decreases rows.len() - i,
                {
                    let r = rows[i];
                    proof {
                        assert(rows@.take(i + 1).drop_last() == rows@.take(i as int));
                        assert(events_of_rows(rows@.take(i + 1)) =~= events_of_rows(
                            rows@.take(i as int),
                        ).push(Event::Message { id: r.id, room_id: r.room_id }));
                    }
                    emit.push(Event::Message { id: r.id, room_id: r.room_id });
                    if r.created_at > seen {
                        seen = r.created_at;
                    }
                    i += 1;
                }
                assert(rows@.take(rows.len() as int) == rows@);
                self.last_seen = seen;
                self.phase = Phase::Sleeping;
            },
            (Phase::Polling, NotifierInput::PollFailed) => {
                self.phase = Phase::Sleeping;
            },
            (Phase::Sleeping, NotifierInput::SleepDone) => {
                if self.steps_left > 1 {
                    self.steps_left = self.steps_left - 1;
                    self.phase = Phase::Polling;
                } else {
                    self.steps_left = 0;
                    self.phase = Phase::Connecting;
                }
            },
            _ => {},
        }
        let next = self.pending();
        Step { emit, next }
    }
}

/// Failures in a row, counted from a fresh or freshly reset notifier, use
/// delays of 1, 2, 4, 8, 16 and then always 30 seconds.
pub proof fn lemma_backoff_sequence(k: nat)
    ensures
        delay_secs(backoff_after_failures(k)) == backoff_after_failures(k),
        k == 0 ==> backoff_after_failures(k) == 1,
        k == 1 ==> backoff_after_failures(k) == 2,
        k == 2 ==> backoff_after_failures(k) == 4,
        k == 3 ==> backoff_after_failures(k) == 8,
        k == 4 ==> backoff_after_failures(k) == 16,
        k >= 5 ==> backoff_after_failures(k) == 30,
    decreases k,
{
    if k > 0 {
        lemma_backoff_sequence((k - 1) as nat);
    }
}

/// The state after `k` failed attempts to subscribe, each followed by its
/// round of polls and pauses.
pub open spec fn after_failed_attempts(n: Notifier, k: nat) -> Notifier
    decreases k,
{
    if k == 0 {
        n
    } else {
        let prev = after_failed_attempts(n, (k - 1) as nat);
        Notifier { phase: Phase::Connecting, steps_left: 0, ..degraded(prev) }
    }
}

/// A round of polling, one failed poll and one pause per step, ends with the
/// notifier about to subscribe again and its backoff untouched.
pub proof fn lemma_polling_round_ends(n: Notifier)
    requires
        n.phase == Phase::Polling,
    ensures
        rounds_of_failed_polls(n, n.steps_left as nat) == (Notifier {
            phase: Phase::Connecting,
            steps_left: 0,
            ..n
        }),
    decreases n.steps_left,
{
    let slept = next_state(next_state(n, NotifierInput::PollFailed), NotifierInput::SleepDone);
    if n.steps_left > 1 {
        lemma_polling_round_ends(slept);
    }
}

/// The state after `steps` rounds of a failed poll followed by its pause, or
/// fewer if the notifier leaves polling earlier.
pub open spec fn rounds_of_failed_polls(n: Notifier, steps: nat) -> Notifier
    decreases steps,
{
    if n.phase != Phase::Polling {
        n
    } else {
        let slept = next_state(next_state(n, NotifierInput::PollFailed), NotifierInput::SleepDone);
        if steps <= 1 {
            slept
        } else {
            rounds_of_failed_polls(slept, (steps - 1) as nat)
        }
    }
}

/// From a notifier whose backoff stands at its minimum, the `k`-th failure
/// in a row (counting from zero) polls for `backoff_after_failures(k)`
/// seconds' worth of steps, and a subscription that then succeeds sets the
/// backoff back to one second.
pub proof fn lemma_failures_follow_backoff(n: Notifier, k: nat)
    requires
        n.phase == Phase::Connecting,
        n.backoff_secs == BACKOFF_MIN_SECS,
    ensures
        after_failed_attempts(n, k).phase == Phase::Connecting,
        after_failed_attempts(n, k).backoff_secs == backoff_after_failures(k),
        next_state(after_failed_attempts(n, k), NotifierInput::TransportError).steps_left
            == poll_steps(backoff_after_failures(k)),
        after_failed_attempts(n, k + 1) == rounds_of_failed_polls(
            next_state(after_failed_attempts(n, k), NotifierInput::TransportError),
            poll_steps(backoff_after_failures(k)) as nat,
        ),
        next_state(after_failed_attempts(n, k), NotifierInput::Subscribed).backoff_secs
            == BACKOFF_MIN_SECS,
    decreases k,
{
    lemma_backoff_sequence(k);
    if k > 0 {
        lemma_failures_follow_backoff(n, (k - 1) as nat);
    }
    let at = after_failed_attempts(n, k);
    let failed = next_state(at, NotifierInput::TransportError);
    assert(failed == degraded(at));
    lemma_polling_round_ends(failed);
}

} // verus!
