//! The engine side of the per-slot execution contract: click events, their
//! routing to slot queues, pagination, and the timing discipline of
//! `delay_with_event_handler` as a step model.
//!
//! The cooperative scheduler itself (task spawning, channels, sleeping)
//! lives outside this crate; it drives these types with plain values.

use vstd::prelude::*;
use vstd::arithmetic::div_mod::{lemma_mod_multiples_vanish, lemma_mod_self_0, lemma_small_mod};
use crate::text::{chars_of, parse_usize, spec_parse_usize};

verus! {

/// The button or scroll direction reported by the bar host.
#[derive(Clone, Copy, Debug, PartialEq, Eq, Structural)]
pub enum I3Button {
    Left,
    Middle,
    Right,
    ScrollUp,
    ScrollDown,
}

/// One click or scroll notification from the bar host.
#[derive(Clone, Debug)]
pub struct I3ClickEvent {
    pub button: I3Button,
    /// The slot-correlation id: the decimal slot index, as set by the bar.
    pub instance: Option<String>,
}

/// An event delivered to an item task.
#[derive(Clone, Debug)]
pub enum BarEvent {
    Click(I3ClickEvent),
}

/// A forward-direction event: primary click or scroll-down.
pub open spec fn is_forward(ev: BarEvent) -> bool {
    match ev {
        BarEvent::Click(c) => c.button == I3Button::Left || c.button == I3Button::ScrollDown,
    }
}

/// A backward-direction event: secondary click or scroll-up.
pub open spec fn is_backward(ev: BarEvent) -> bool {
    match ev {
        BarEvent::Click(c) => c.button == I3Button::Right || c.button == I3Button::ScrollUp,
    }
}

/// Where pagination lands: forward events step up, backward events step
/// down, both wrapping modulo `len`; other events change nothing.
pub open spec fn spec_paginate(ev: BarEvent, len: int, idx: int) -> int {
    if is_forward(ev) {
        (idx + 1) % len
    } else if is_backward(ev) {
        (idx + len - 1) % len
    } else {
        idx
    }
}

/// Step `idx` through `len` pages as the event directs, wrapping and
/// never leaving `0 .. len`.
pub fn paginate(event: &BarEvent, len: usize, idx: &mut usize)
    requires
        len > 0,
        *old(idx) < len,
    ensures
        *final(idx) == spec_paginate(*event, len as int, *old(idx) as int),
        *final(idx) < len,
{
    let BarEvent::Click(c) = event;
    let forward = c.button == I3Button::Left || c.button == I3Button::ScrollDown;
    let backward = c.button == I3Button::Right || c.button == I3Button::ScrollUp;
    if forward {
        if *idx + 1 == len {
            *idx = 0;
            proof {
                lemma_mod_self_0(len as int);
            }
        } else {
            *idx = *idx + 1;
            proof {
                lemma_small_mod(*idx as nat, len as nat);
            }
        }
    } else if backward {
        if *idx == 0 {
            *idx = len - 1;
            proof {
                lemma_mod_multiples_vanish(1, len as int - 1, len as int);
                lemma_small_mod((len - 1) as nat, len as nat);
            }
        } else {
            *idx = *idx - 1;
            proof {
                lemma_mod_multiples_vanish(1, *idx as int, len as int);
                lemma_small_mod(*idx as nat, len as nat);
            }
        }
    }
}

/// The slot an event is addressed to among `n` slots: its `instance`
/// parsed as a decimal index, when that parses and is in range.
pub open spec fn event_slot(ev: BarEvent, n: int) -> Option<int> {
    match ev {
        BarEvent::Click(c) => match c.instance {
            Some(s) => match spec_parse_usize(s@) {
                Some(i) => if i < n {
                    Some(i)
                } else {
                    None
                },
                None => None,
            },
            None => None,
        },
    }
}

/// Dispatches incoming events to per-slot queues.  Events whose instance
/// does not name a live slot are dropped; events for the same slot keep
/// their arrival order.
#[derive(Debug)]
pub struct EventRouter {
    pub queues: Vec<Vec<BarEvent>>,
}

impl EventRouter {
    /// A router with one empty queue per slot.
    pub fn new(slots: usize) -> (r: EventRouter)
        ensures
            r.queues@.len() == slots,
            forall|i: int| 0 <= i < slots ==> (#[trigger] r.queues@[i])@.len() == 0,
    {
        let mut queues: Vec<Vec<BarEvent>> = Vec::new();
        let mut i: usize = 0;
        while i < slots
            invariant
                i <= slots,
                queues@.len() == i,
                forall|j: int| 0 <= j < i ==> (#[trigger] queues@[j])@.len() == 0,
            decreases slots - i,
        {
            queues.push(Vec::new());
            i += 1;
        }
        EventRouter { queues }
    }

    /// Forward `ev` to the queue its instance addresses; drop it when the
    /// instance is absent, unparsable or out of range.  Returns whether
    /// the event was delivered.
    pub fn route(&mut self, ev: BarEvent) -> (delivered: bool)
        ensures
            final(self).queues@.len() == old(self).queues@.len(),
            match event_slot(ev, old(self).queues@.len() as int) {
                Some(i) => {
                    &&& delivered
                    &&& (final(self).queues@[i])@ == (old(self).queues@[i])@.push(ev)
                    &&& forall|j: int|
                        0 <= j < old(self).queues@.len() && j != i ==> final(self).queues@[j]
                            == old(self).queues@[j]
                },
                None => !delivered && final(self).queues == old(self).queues,
            },
    {
        let slot = match &ev {
            BarEvent::Click(c) => match &c.instance {
                Some(s) => parse_usize(&chars_of(s.as_str())),
                None => None,
            },
        };
        match slot {
            Some(i) => {
                if i < self.queues.len() {
                    let mut q = self.queues.remove(i);
                    q.push(ev);
                    self.queues.insert(i, q);
                    true
                } else {
                    false
                }
            },
            None => false,
        }
    }

    /// Take the oldest pending event for `slot`, if any.
    pub fn next_event(&mut self, slot: usize) -> (r: Option<BarEvent>)
        requires
            slot < old(self).queues@.len(),
        ensures
            final(self).queues@.len() == old(self).queues@.len(),
            forall|j: int|
                0 <= j < old(self).queues@.len() && j != slot ==> final(self).queues@[j] == old(
                    self,
                ).queues@[j],
            match r {
                Some(ev) => {
                    &&& (old(self).queues@[slot as int])@.len() > 0
                    &&& ev == (old(self).queues@[slot as int])@[0]
                    &&& (final(self).queues@[slot as int])@ == (old(
                        self,
                    ).queues@[slot as int])@.drop_first()
                },
                None => {
                    &&& (old(self).queues@[slot as int])@.len() == 0
                    &&& final(self).queues == old(self).queues
                },
            },
    {
        if self.queues[slot].len() == 0 {
            return None;
        }
        let mut q = self.queues.remove(slot);
        let ev = q.remove(0);
        self.queues.insert(slot, q);
        proof {
            assert((final(self).queues@[slot as int])@ =~= (old(
                self,
            ).queues@[slot as int])@.drop_first());
        }
        Some(ev)
    }
}

/// The instance a bar slot stamps on its items is the channel back: an
/// event carrying slot `i`'s decimal index is addressed to exactly slot
/// `i`, never dropped and never delivered elsewhere.
pub proof fn lemma_instance_routes_back(ev: BarEvent, n: int, i: usize)
    requires
        i < n,
        ev matches BarEvent::Click(c) && c.instance matches Some(s) && s@
            == crate::text::dec_digits(i as nat),
    ensures
        event_slot(ev, n) == Some(i as int),
{
    crate::text::lemma_decimal_roundtrip(i as nat);
}

/// Addition of millisecond counts, clamped at the counter maximum.
pub open spec fn sat_add64(a: u64, b: u64) -> u64 {
    if a + b > u64::MAX {
        u64::MAX
    } else {
        (a + b) as u64
    }
}

/// One observable step during a `delay_with_event_handler` call: time
/// passing, or an event for the slot being handed to the handler.
pub enum DelayStep {
    Tick(u64),
    Deliver(BarEvent),
}

/// The mathematical shape of an in-flight delay call.
#[verifier::ext_equal]
pub struct DelayWaitModel {
    pub duration_ms: u64,
    pub elapsed_ms: u64,
    pub handled: Seq<BarEvent>,
}

/// How a delay call changes under one step: ticks advance the timer,
/// deliveries reach the handler without resetting or extending it.
pub open spec fn delay_step(w: DelayWaitModel, step: DelayStep) -> DelayWaitModel {
    match step {
        DelayStep::Tick(ms) => DelayWaitModel {
            elapsed_ms: sat_add64(w.elapsed_ms, ms),
            ..w
        },
        DelayStep::Deliver(ev) => DelayWaitModel { handled: w.handled.push(ev), ..w },
    }
}

/// A delay call after a whole sequence of steps.
pub open spec fn delay_run(w: DelayWaitModel, steps: Seq<DelayStep>) -> DelayWaitModel
    decreases steps.len(),
{
    if steps.len() == 0 {
        w
    } else {
        delay_run(delay_step(w, steps[0]), steps.drop_first())
    }
}

/// The call returns exactly when the timer has elapsed.
pub open spec fn delay_complete(w: DelayWaitModel) -> bool {
    w.elapsed_ms >= w.duration_ms
}

/// An in-flight `delay_with_event_handler`: suspends for a fixed
/// duration while handing events for the slot to a handler, without
/// resetting the timer.
#[derive(Debug)]
pub struct DelayWait {
    pub duration_ms: u64,
    pub elapsed_ms: u64,
    pub handled: Vec<BarEvent>,
}

impl View for DelayWait {
    type V = DelayWaitModel;

    open spec fn view(&self) -> DelayWaitModel {
        DelayWaitModel {
            duration_ms: self.duration_ms,
            elapsed_ms: self.elapsed_ms,
            handled: self.handled@,
        }
    }
}

impl DelayWait {
    pub fn begin(duration_ms: u64) -> (w: DelayWait)
        ensures
            w@ == (DelayWaitModel { duration_ms, elapsed_ms: 0, handled: Seq::empty() }),
    {
        let w = DelayWait { duration_ms, elapsed_ms: 0, handled: Vec::new() };
        proof {
            assert(w@ =~= (DelayWaitModel {
                duration_ms,
                elapsed_ms: 0,
                handled: Seq::empty(),
            }));
        }
        w
    }

    /// Account `ms` milliseconds of passed time.
    pub fn tick(&mut self, ms: u64)
        ensures
            final(self)@ == delay_step(old(self)@, DelayStep::Tick(ms)),
    {
        self.elapsed_ms = if self.elapsed_ms > u64::MAX - ms {
            u64::MAX
        } else {
            self.elapsed_ms + ms
        };
        proof {
            assert(final(self)@ =~= delay_step(old(self)@, DelayStep::Tick(ms)));
        }
    }

    /// Hand an event to the handler; the timer is untouched.
    pub fn deliver(&mut self, ev: BarEvent)
        ensures
            final(self)@ == delay_step(old(self)@, DelayStep::Deliver(ev)),
    {
        self.handled.push(ev);
        proof {
            assert(final(self)@ =~= delay_step(old(self)@, DelayStep::Deliver(ev)));
        }
    }

    /// May the call return?
    pub fn is_complete(&self) -> (b: bool)
        ensures
            b == delay_complete(self@),
    {
        self.elapsed_ms >= self.duration_ms
    }
}

/// A plain timer of a fixed duration, with no event handling at all.
#[derive(Clone, Copy, Debug, PartialEq, Eq, Structural)]
pub struct SleepWait {
    pub duration_ms: u64,
    pub elapsed_ms: u64,
}

/// How a plain timer changes as time passes.
pub open spec fn sleep_step(t: SleepWait, ms: u64) -> SleepWait {
    SleepWait { elapsed_ms: sat_add64(t.elapsed_ms, ms), ..t }
}

/// A plain timer after a whole sequence of ticks.
pub open spec fn sleep_run(t: SleepWait, ticks: Seq<u64>) -> SleepWait
    decreases ticks.len(),
{
    if ticks.len() == 0 {
        t
    } else {
        sleep_run(sleep_step(t, ticks[0]), ticks.drop_first())
    }
}

pub open spec fn sleep_complete(t: SleepWait) -> bool {
    t.elapsed_ms >= t.duration_ms
}

impl SleepWait {
    pub fn begin(duration_ms: u64) -> (t: SleepWait)
        ensures
            t == (SleepWait { duration_ms, elapsed_ms: 0 }),
    {
        SleepWait { duration_ms, elapsed_ms: 0 }
    }

    pub fn tick(&mut self, ms: u64)
        ensures
            *final(self) == sleep_step(*old(self), ms),
    {
        self.elapsed_ms = if self.elapsed_ms > u64::MAX - ms {
            u64::MAX
        } else {
            self.elapsed_ms + ms
        };
    }

    pub fn is_complete(&self) -> (b: bool)
        ensures
            b == sleep_complete(*self),
    {
        self.elapsed_ms >= self.duration_ms
    }
}

/// Every step is a tick: no event arrived during the wait.
pub open spec fn all_ticks(steps: Seq<DelayStep>) -> bool {
    forall|i: int| 0 <= i < steps.len() ==> (#[trigger] steps[i]) is Tick
}

/// The tick amounts of a step sequence, in order.
pub open spec fn ticks_of(steps: Seq<DelayStep>) -> Seq<u64>
    decreases steps.len(),
{
    if steps.len() == 0 {
        Seq::empty()
    } else {
        match steps[0] {
            DelayStep::Tick(ms) => seq![ms] + ticks_of(steps.drop_first()),
            DelayStep::Deliver(_) => ticks_of(steps.drop_first()),
        }
    }
}

/// A `delay_with_event_handler` call during which no event arrives
/// behaves exactly like a plain timer of the same duration: the handler
/// never runs, the timer advances identically, and both complete at the
/// same time.
pub proof fn lemma_delay_without_events_is_plain_timer(
    w: DelayWaitModel,
    t: SleepWait,
    steps: Seq<DelayStep>,
)
    requires
        all_ticks(steps),
        w.duration_ms == t.duration_ms,
        w.elapsed_ms == t.elapsed_ms,
    ensures
        delay_run(w, steps).handled == w.handled,
        delay_run(w, steps).duration_ms == sleep_run(t, ticks_of(steps)).duration_ms,
        delay_run(w, steps).elapsed_ms == sleep_run(t, ticks_of(steps)).elapsed_ms,
        delay_complete(delay_run(w, steps)) <==> sleep_complete(sleep_run(t, ticks_of(steps))),
    decreases steps.len(),
{
    if steps.len() > 0 {
        let ms = steps[0]->Tick_0;
        assert(steps[0] is Tick);
        assert(all_ticks(steps.drop_first())) by {
            assert(forall|i: int|
                0 <= i < steps.drop_first().len() ==> #[trigger] steps.drop_first()[i] == steps[i
                    + 1]);
        }
        assert(ticks_of(steps).drop_first() =~= ticks_of(steps.drop_first()));
        lemma_delay_without_events_is_plain_timer(
            delay_step(w, steps[0]),
            sleep_step(t, ms),
            steps.drop_first(),
        );
    }
}

} // verus!
