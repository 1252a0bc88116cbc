//! The order of work within one tick of the control loop.
//!
//! A tick asks four questions in a fixed order: is input due, has the
//! screen timed out, is a refresh due, is a redraw pending?  Each question
//! may call for work outside this library.  `Scheduler::step` answers with
//! the next piece of work; the caller does it and asks again.  After the
//! last question the answer is `Step::Pause`, and the next tick begins.
//!
//! Input and refresh each run on their own fixed cadence.  A deadline that
//! was missed moves on by whole periods until it lies ahead again; it is
//! never reset to the current time.

use crate::state::{AppState, StateModel};
use vstd::prelude::*;

verus! {

/// Time between two polls for input, in milliseconds.
pub const POLL_INTERVAL: u64 = 10;

/// Time between two refreshes of the metrics, in milliseconds.
pub const REFRESH_INTERVAL: u64 = 2_000;

/// The question that the tick asks next.
#[derive(Debug, Clone, Copy, PartialEq, Eq, Structural)]
pub enum Phase {
    Input,
    Timeout,
    Refresh,
    Redraw,
    Pause,
}

/// The work that the caller is to do now.
#[derive(Debug, Clone, Copy, PartialEq, Eq, Structural)]
pub enum Step {
    /// Drain the pending reports of the display and handle each.
    PollInput,
    /// The screen has gone to sleep: turn the backlight off.
    BacklightOff,
    /// Sample the metrics and the RAID status and set the lights.
    Refresh,
    /// Compose the screen, write it out, and turn the backlight on.
    Redraw,
    /// Rest briefly; the tick is over.
    Pause,
}

/// The two deadlines and the place in the tick.
#[derive(Debug, Clone, Copy, PartialEq, Eq, Structural)]
pub struct Scheduler {
    pub next_poll: u64,
    pub next_refresh: u64,
    pub phase: Phase,
    /// The time at which the running tick began.
    pub tick_started: u64,
}

/// The outcome of one step.
pub struct Stepped {
    pub scheduler: Scheduler,
    pub state: StateModel,
    pub step: Step,
}

/// Where `deadline` stands after it has been brought past `now`: unchanged
/// if it lies ahead, and else moved on by as many whole periods as it takes
/// to lie ahead.
pub open spec fn caught_up(deadline: int, period: int, now: int) -> int {
    if now < deadline {
        deadline
    } else {
        deadline + ((now - deadline) / period + 1) * period
    }
}

impl Phase {
    /// The place of the phase in the tick, counted from 0.
    pub open spec fn index(self) -> nat {
        match self {
            Phase::Input => 0,
            Phase::Timeout => 1,
            Phase::Refresh => 2,
            Phase::Redraw => 3,
            Phase::Pause => 4,
        }
    }
}

impl Step {
    /// The phase that calls for this step.
    pub open spec fn phase(self) -> Phase {
        match self {
            Step::PollInput => Phase::Input,
            Step::BacklightOff => Phase::Timeout,
            Step::Refresh => Phase::Refresh,
            Step::Redraw => Phase::Redraw,
            Step::Pause => Phase::Pause,
        }
    }
}

impl Scheduler {
    /// The scheduler at start-up: both deadlines are due at once.
    pub open spec fn initial(now: u64) -> Scheduler {
        Scheduler { next_poll: now, next_refresh: now, phase: Phase::Input, tick_started: now }
    }

    /// One step at time `now`, for the operator state `state`.
    ///
    /// The questions are gone through from the current phase on until one
    /// calls for work:
    /// - input is due when `now` has reached `next_poll`; the tick takes
    ///   `now` as its start, and `next_poll` catches up;
    /// - the screen has timed out when the start of the tick has reached
    ///   its deadline; it is then asleep;
    /// - a refresh is due when `now` has reached `next_refresh`, which
    ///   catches up;
    /// - a redraw is pending when the state says so; the flag is cleared;
    /// - at last comes the pause, and the phase returns to input.
    pub open spec fn stepped(self, state: StateModel, now: u64) -> Stepped
        decreases 4 - self.phase.index(),
    {
        match self.phase {
            Phase::Input => {
                let next = Scheduler { phase: Phase::Timeout, tick_started: now, ..self };
                if now >= self.next_poll {
                    Stepped {
                        scheduler: Scheduler {
                            next_poll: caught_up(
                                self.next_poll as int,
                                POLL_INTERVAL as int,
                                now as int,
                            ) as u64,
                            ..next
                        },
                        state,
                        step: Step::PollInput,
                    }
                } else {
                    next.stepped(state, now)
                }
            },
            Phase::Timeout => {
                let next = Scheduler { phase: Phase::Refresh, ..self };
                if state.timed_out(self.tick_started) {
                    Stepped {
                        scheduler: next,
                        state: state.put_to_sleep(),
                        step: Step::BacklightOff,
                    }
                } else {
                    next.stepped(state, now)
                }
            },
            Phase::Refresh => {
                let next = Scheduler { phase: Phase::Redraw, ..self };
                if now >= self.next_refresh {
                    Stepped {
                        scheduler: Scheduler {
                            next_refresh: caught_up(
                                self.next_refresh as int,
                                REFRESH_INTERVAL as int,
                                now as int,
                            ) as u64,
                            ..next
                        },
                        state,
                        step: Step::Refresh,
                    }
                } else {
                    next.stepped(state, now)
                }
            },
            Phase::Redraw => {
                let next = Scheduler { phase: Phase::Pause, ..self };
                if state.should_redraw {
                    Stepped { scheduler: next, state: state.redraw_done(), step: Step::Redraw }
                } else {
                    next.stepped(state, now)
                }
            },
            Phase::Pause => Stepped {
                scheduler: Scheduler { phase: Phase::Input, ..self },
                state,
                step: Step::Pause,
            },
        }
    }

    /// The scheduler at start-up.
    pub fn new(now: u64) -> (s: Scheduler)
        ensures
            s == Scheduler::initial(now),
    {
        Scheduler { next_poll: now, next_refresh: now, phase: Phase::Input, tick_started: now }
    }

    /// Says what is to be done next at time `now`, and moves on.
    pub fn step(&mut self, state: &mut AppState, now: u64) -> (step: Step)
        requires
            now + REFRESH_INTERVAL <= u64::MAX,
        ensures
            *final(self) == old(self).stepped(old(state)@, now).scheduler,
            final(state)@ == old(self).stepped(old(state)@, now).state,
            step == old(self).stepped(old(state)@, now).step,
    {
        reveal_with_fuel(Scheduler::stepped, 5);
        match self.phase {
            Phase::Input => {
                self.phase = Phase::Timeout;
                self.tick_started = now;
                if now >= self.next_poll {
                    self.next_poll = catch_up(self.next_poll, POLL_INTERVAL, now);
                    return Step::PollInput;
                }
            },
            _ => {},
        }
        match self.phase {
            Phase::Timeout => {
                self.phase = Phase::Refresh;
                if state.timed_out(self.tick_started) {
                    state.sleep();
                    return Step::BacklightOff;
                }
            },
            _ => {},
        }
        match self.phase {
            Phase::Refresh => {
                self.phase = Phase::Redraw;
                if now >= self.next_refresh {
                    self.next_refresh = catch_up(self.next_refresh, REFRESH_INTERVAL, now);
                    return Step::Refresh;
                }
            },
            _ => {},
        }
        match self.phase {
            Phase::Redraw => {
                self.phase = Phase::Pause;
                if state.should_redraw() {
                    state.clear_redraw();
                    return Step::Redraw;
                }
            },
            _ => {},
        }
        self.phase = Phase::Input;
        Step::Pause
    }
}

/// Brings `deadline` past `now` by adding `period` as often as needed.
pub fn catch_up(deadline: u64, period: u64, now: u64) -> (next: u64)
    requires
        period > 0,
        now + period <= u64::MAX,
    ensures
        next == caught_up(deadline as int, period as int, now as int),
{
    let mut next = deadline;
    let ghost mut added: int = 0;
    while now >= next
        invariant
            period > 0,
            now + period <= u64::MAX,
            added >= 0,
            next == deadline + added * period,
            added > 0 ==> next - period <= now,
        decreases now - next + period,
    {
        proof {
            assert((added + 1) * period == added * period + period) by (nonlinear_arith);
            added = added + 1;
        }
        next += period;
    }
    proof {
        if added > 0 {
            assert((added - 1) * period == added * period - period) by (nonlinear_arith);
            lemma_periods_to_pass(deadline as int, period as int, now as int, added);
        }
    }
    next
}

/// The number of whole periods that bring a missed deadline past `now`.
proof fn lemma_periods_to_pass(deadline: int, period: int, now: int, added: int)
    requires
        period > 0,
        added > 0,
        deadline + (added - 1) * period <= now < deadline + added * period,
    ensures
        (now - deadline) / period + 1 == added,
{
    let behind = now - deadline;
    assert((added - 1) * period <= behind < added * period) by (nonlinear_arith)
        requires
            deadline + (added - 1) * period <= now < deadline + added * period,
            behind == now - deadline,
    ;
    vstd::arithmetic::div_mod::lemma_fundamental_div_mod(behind, period);
    let q = behind / period;
    let r = behind % period;
    assert(0 <= r < period) by {
        vstd::arithmetic::div_mod::lemma_mod_bound(behind, period);
    }
    assert(q == added - 1) by (nonlinear_arith)
        requires
            period > 0,
            behind == period * q + r,
            0 <= r < period,
            (added - 1) * period <= behind < added * period,
    ;
}

/// A deadline that has caught up lies ahead of `now` by at most one
/// period, and it has kept its cadence: it differs from the old deadline by
/// a whole number of periods.  A deadline that was not missed stays.
pub proof fn lemma_caught_up_keeps_cadence(deadline: int, period: int, now: int)
    requires
        period > 0,
    ensures
        now < caught_up(deadline, period, now),
        now < deadline ==> caught_up(deadline, period, now) == deadline,
        deadline <= now ==> caught_up(deadline, period, now) <= now + period,
        deadline <= caught_up(deadline, period, now),
        (caught_up(deadline, period, now) - deadline) % period == 0,
{
    if deadline <= now {
        let behind = now - deadline;
        let q = behind / period;
        vstd::arithmetic::div_mod::lemma_fundamental_div_mod(behind, period);
        vstd::arithmetic::div_mod::lemma_mod_bound(behind, period);
        assert((q + 1) * period == period * q + period) by (nonlinear_arith);
        assert(q >= 0) by (nonlinear_arith)
            requires
                period > 0,
                behind >= 0,
                behind == period * q + behind % period,
                0 <= behind % period < period,
        ;
        assert((q + 1) * period >= 0) by (nonlinear_arith)
            requires
                q >= 0,
                period > 0,
        ;
        vstd::arithmetic::div_mod::lemma_mod_multiples_basic(q + 1, period);
    } else {
        assert(0int % period == 0) by {
            vstd::arithmetic::div_mod::lemma_small_mod(0, period as nat);
        }
    }
}

/// Within a tick the work comes in a fixed order: input before the
/// timeout, the timeout before the refresh, the refresh before the redraw,
/// and the pause last.  Each step belongs to the current phase or a later
/// one, and leaves the scheduler in the phase after its own; the pause
/// leads back to the first.
pub proof fn lemma_steps_in_order(s: Scheduler, state: StateModel, now: u64)
    ensures
        s.phase.index() <= s.stepped(state, now).step.phase().index(),
        s.stepped(state, now).step != Step::Pause ==> s.stepped(state, now).scheduler.phase.index()
            == s.stepped(state, now).step.phase().index() + 1,
        s.stepped(state, now).step == Step::Pause ==> s.stepped(state, now).scheduler.phase
            == Phase::Input,
{
    reveal_with_fuel(Scheduler::stepped, 5);
}

/// A step leaves the operator state alone but for two things: the step
/// that turns the backlight off puts the screen to sleep, and the step
/// that calls for a redraw takes the redraw flag down.  Page and scroll
/// position never change, and the scroll position stays within its bound.
pub proof fn lemma_step_touches_little(s: Scheduler, state: StateModel, now: u64)
    ensures
        s.stepped(state, now).state == match s.stepped(state, now).step {
            Step::BacklightOff => state.put_to_sleep(),
            Step::Redraw => state.redraw_done(),
            _ => state,
        },
        state.valid() ==> s.stepped(state, now).state.valid(),
{
    reveal_with_fuel(Scheduler::stepped, 5);
}

/// The backlight is turned off exactly when a lit screen goes to sleep.
/// A screen that is asleep stays asleep through every step and is never
/// told to turn the backlight off again.
pub proof fn lemma_backlight_off_once(s: Scheduler, state: StateModel, now: u64)
    ensures
        s.stepped(state, now).step == Step::BacklightOff <==> state.is_awake() && !s.stepped(
            state,
            now,
        ).state.is_awake(),
        !state.is_awake() ==> !s.stepped(state, now).state.is_awake(),
{
    reveal_with_fuel(Scheduler::stepped, 5);
}

/// A tick puts the screen to sleep if and only if the deadline has been
/// reached when the tick starts.  The tick that starts at `now` may first
/// call for input; if no key is pressed, so that the state stays as it
/// is, the step after that, at whatever time `later`, decides the same.
pub proof fn lemma_timeout_sleeps(s: Scheduler, state: StateModel, now: u64, later: u64)
    requires
        s.phase == Phase::Input,
    ensures
        s.stepped(state, now).step != Step::PollInput ==> (s.stepped(state, now).step
            == Step::BacklightOff <==> state.timed_out(now)),
        s.stepped(state, now).step == Step::PollInput ==> (s.stepped(state, now).scheduler.stepped(
            state,
            later,
        ).step == Step::BacklightOff <==> state.timed_out(now)),
{
    reveal_with_fuel(Scheduler::stepped, 5);
}

/// Input and refresh are called for exactly when they are due: input when
/// a tick starts at or after `next_poll`, a refresh when the tick has come
/// to that question at or after `next_refresh`.  Each deadline then catches
/// up, and moves at no other time.
pub proof fn lemma_due_work(s: Scheduler, state: StateModel, now: u64)
    ensures
        s.phase == Phase::Input ==> (s.stepped(state, now).step == Step::PollInput <==> now
            >= s.next_poll),
        s.phase == Phase::Refresh ==> (s.stepped(state, now).step == Step::Refresh <==> now
            >= s.next_refresh),
        s.phase == Phase::Redraw ==> (s.stepped(state, now).step == Step::Redraw
            <==> state.should_redraw),
        s.stepped(state, now).scheduler.next_poll == if s.stepped(state, now).step
            == Step::PollInput {
            caught_up(s.next_poll as int, POLL_INTERVAL as int, now as int) as u64
        } else {
            s.next_poll
        },
        s.stepped(state, now).scheduler.next_refresh == if s.stepped(state, now).step
            == Step::Refresh {
            caught_up(s.next_refresh as int, REFRESH_INTERVAL as int, now as int) as u64
        } else {
            s.next_refresh
        },
{
    reveal_with_fuel(Scheduler::stepped, 5);
}

} // verus!
