//! What the operator sees and does: the page shown, the scroll position,
//! the redraw flag and the sleep timer, and how key presses change them.
//!
//! Times are milliseconds on a clock that never runs backwards.

use crate::page::Page;
use vstd::prelude::*;

verus! {

/// How long the screen stays lit after the last key press, in milliseconds.
pub const SCREEN_TIMEOUT: u64 = 15_000;

/// A key of the keypad.
#[derive(Debug, Clone, Copy, PartialEq, Eq, Structural)]
pub enum Key {
    Up,
    Down,
    Left,
    Right,
    Enter,
    Exit,
}

/// One event reported by the display.
#[derive(Debug, Clone, Copy, PartialEq, Eq, Structural)]
pub enum Report {
    /// A key went down (`pressed`) or came up.
    KeyActivity { key: Key, pressed: bool },
    /// Anything else the display may report.
    Other,
}

/// Whether the screen is lit, and until when.
#[derive(Debug, Clone, Copy, PartialEq, Eq, Structural)]
pub enum SleepState {
    /// The backlight is off; the next key press only wakes the screen.
    Asleep,
    /// The screen is lit and goes dark once the clock reaches the deadline.
    AwakeUntil(u64),
}

/// The operator-facing state as a mathematical value.
pub struct StateModel {
    pub page: Page,
    pub scroll: nat,
    /// The largest useful scroll position, known once the page has been
    /// drawn.
    pub max_scroll: Option<nat>,
    pub should_redraw: bool,
    pub sleep: SleepState,
}

impl StateModel {
    /// The scroll position never passes a known bound.
    pub open spec fn valid(self) -> bool {
        self.max_scroll matches Some(m) ==> self.scroll <= m
    }

    pub open spec fn is_awake(self) -> bool {
        self.sleep is AwakeUntil
    }

    /// The state right after start-up at time `now`: the system page, not
    /// scrolled, nothing to draw, and a sleep deadline that has already been
    /// reached.
    pub open spec fn initial(now: u64) -> StateModel {
        StateModel {
            page: Page::System,
            scroll: 0,
            max_scroll: None,
            should_redraw: false,
            sleep: SleepState::AwakeUntil(now),
        }
    }

    /// Showing `page` from its top, with the scroll bound forgotten and a
    /// redraw scheduled.
    pub open spec fn turned_to(self, page: Page) -> StateModel {
        StateModel { page, scroll: 0, max_scroll: None, should_redraw: true, ..self }
    }

    pub open spec fn redraw_queued(self) -> StateModel {
        StateModel { should_redraw: true, ..self }
    }

    pub open spec fn redraw_done(self) -> StateModel {
        StateModel { should_redraw: false, ..self }
    }

    pub open spec fn put_to_sleep(self) -> StateModel {
        StateModel { sleep: SleepState::Asleep, ..self }
    }

    /// The effect of a key press at time `now` on the sleep timer.  The
    /// deadline moves to `now + SCREEN_TIMEOUT` in any case.  A screen that
    /// was asleep is also redrawn, on the messages page if `alarms` are
    /// pending.
    pub open spec fn woken(self, now: u64, alarms: bool) -> StateModel {
        let lit = StateModel {
            sleep: SleepState::AwakeUntil((now + SCREEN_TIMEOUT) as u64),
            ..self
        };
        if self.is_awake() {
            lit
        } else if alarms {
            lit.turned_to(Page::Messages)
        } else {
            lit.redraw_queued()
        }
    }

    /// The effect of `key` as a navigation key.
    pub open spec fn navigated(self, key: Key) -> StateModel {
        match key {
            Key::Left => self.turned_to(self.page.prev()),
            Key::Right => self.turned_to(self.page.next()),
            Key::Up => if self.scroll > 0 {
                StateModel { scroll: (self.scroll - 1) as nat, should_redraw: true, ..self }
            } else {
                self
            },
            Key::Down => match self.max_scroll {
                Some(m) if self.scroll < m => StateModel {
                    scroll: self.scroll + 1,
                    should_redraw: true,
                    ..self
                },
                _ => self,
            },
            Key::Enter | Key::Exit => if self.page == Page::Messages {
                self.turned_to(Page::System)
            } else {
                self
            },
        }
    }

    /// The effect of one report at time `now`.  Only key presses count.  A
    /// press while asleep wakes the screen and does nothing else; a press
    /// while awake extends the deadline and navigates.
    pub open spec fn handled(self, report: Report, now: u64, alarms: bool) -> StateModel {
        match report {
            Report::KeyActivity { key, pressed: true } => if self.is_awake() {
                self.woken(now, alarms).navigated(key)
            } else {
                self.woken(now, alarms)
            },
            _ => self,
        }
    }

    /// Whether the screen is lit and its deadline has been reached at `now`.
    pub open spec fn timed_out(self, now: u64) -> bool {
        self.sleep matches SleepState::AwakeUntil(deadline) && now >= deadline
    }

    /// The largest useful scroll position for a list of `count` lines, of
    /// which `visible` fit on the screen.
    pub open spec fn scroll_bound(count: nat, visible: nat) -> nat {
        if count > visible {
            (count - visible) as nat
        } else {
            0
        }
    }

    /// After a list has been drawn: the scroll bound is `bound` and the
    /// scroll position is pulled back to it.
    pub open spec fn bounded(self, bound: nat) -> StateModel {
        StateModel {
            scroll: if self.scroll < bound {
                self.scroll
            } else {
                bound
            },
            max_scroll: Some(bound),
            ..self
        }
    }
}

/// The operator-facing state.
pub struct AppState {
    current_page: Page,
    scroll: usize,
    max_scroll: Option<usize>,
    should_redraw: bool,
    sleep: SleepState,
}

impl View for AppState {
    type V = StateModel;

    closed spec fn view(&self) -> StateModel {
        StateModel {
            page: self.current_page,
            scroll: self.scroll as nat,
            max_scroll: match self.max_scroll {
                Some(m) => Some(m as nat),
                None => None,
            },
            should_redraw: self.should_redraw,
            sleep: self.sleep,
        }
    }
}

impl AppState {
    #[verifier::type_invariant]
    spec fn bounded_scroll(self) -> bool {
        self.max_scroll matches Some(m) ==> self.scroll <= m
    }

    /// The state at start-up.
    pub fn new(now: u64) -> (s: AppState)
        ensures
            s@ == StateModel::initial(now),
            s@.valid(),
    {
        AppState {
            current_page: Page::System,
            scroll: 0,
            max_scroll: None,
            should_redraw: false,
            sleep: SleepState::AwakeUntil(now),
        }
    }

    pub fn current_page(&self) -> (p: Page)
        ensures
            p == self@.page,
    {
        self.current_page
    }

    pub fn scroll(&self) -> (n: usize)
        ensures
            n == self@.scroll,
            self@.valid(),
    {
        proof {
            use_type_invariant(self);
        }
        self.scroll
    }

    pub fn max_scroll(&self) -> (m: Option<usize>)
        ensures
            match m {
                Some(b) => self@.max_scroll == Some(b as nat),
                None => self@.max_scroll is None,
            },
            self@.valid(),
    {
        proof {
            use_type_invariant(self);
        }
        self.max_scroll
    }

    pub fn should_redraw(&self) -> (b: bool)
        ensures
            b == self@.should_redraw,
    {
        self.should_redraw
    }

    pub fn sleep_state(&self) -> (s: SleepState)
        ensures
            s == self@.sleep,
    {
        self.sleep
    }

    pub fn is_awake(&self) -> (b: bool)
        ensures
            b == self@.is_awake(),
    {
        match self.sleep {
            SleepState::AwakeUntil(_) => true,
            SleepState::Asleep => false,
        }
    }

    /// Whether the sleep deadline has been reached at `now`.
    pub fn timed_out(&self, now: u64) -> (b: bool)
        ensures
            b == self@.timed_out(now),
    {
        match self.sleep {
            SleepState::AwakeUntil(deadline) => now >= deadline,
            SleepState::Asleep => false,
        }
    }

    /// Switches to `page`, also when it is the page already shown.
    pub fn set_page(&mut self, page: Page)
        ensures
            final(self)@ == old(self)@.turned_to(page),
            final(self)@.valid(),
    {
        proof {
            use_type_invariant(&*self);
        }
        self.current_page = page;
        self.scroll = 0;
        self.max_scroll = None;
        self.queue_redraw();
    }

    pub fn queue_redraw(&mut self)
        ensures
            final(self)@ == old(self)@.redraw_queued(),
            final(self)@.valid(),
    {
        proof {
            use_type_invariant(&*self);
        }
        self.should_redraw = true;
    }

    /// Marks the pending redraw as done.
    pub fn clear_redraw(&mut self)
        ensures
            final(self)@ == old(self)@.redraw_done(),
            final(self)@.valid(),
    {
        proof {
            use_type_invariant(&*self);
        }
        self.should_redraw = false;
    }

    /// Forgets the deadline.  Turning the backlight off is the caller's
    /// part.
    pub fn sleep(&mut self)
        ensures
            final(self)@ == old(self)@.put_to_sleep(),
            final(self)@.valid(),
    {
        proof {
            use_type_invariant(&*self);
        }
        self.sleep = SleepState::Asleep;
    }

    /// Registers a key press at time `now`; `alarms` says whether warnings
    /// or errors are pending.  Returns whether the screen was asleep.
    ///
    /// The backlight is not part of this: it is switched on after the next
    /// redraw, so that stale content never lights up.
    pub fn wake(&mut self, now: u64, alarms: bool) -> (was_asleep: bool)
        requires
            now + SCREEN_TIMEOUT <= u64::MAX,
        ensures
            was_asleep == !old(self)@.is_awake(),
            final(self)@ == old(self)@.woken(now, alarms),
            final(self)@.valid(),
    {
        proof {
            use_type_invariant(&*self);
        }
        let was_asleep = !self.is_awake();
        self.sleep = SleepState::AwakeUntil(now + SCREEN_TIMEOUT);
        if was_asleep {
            // If there are messages to display, start on the messages page.
            if alarms {
                self.set_page(Page::Messages);
            }
            self.queue_redraw();
        }
        was_asleep
    }

    /// Handles one report from the display at time `now`.
    pub fn handle_report(&mut self, report: Report, now: u64, alarms: bool)
        requires
            now + SCREEN_TIMEOUT <= u64::MAX,
        ensures
            final(self)@ == old(self)@.handled(report, now, alarms),
            final(self)@.valid(),
    {
        proof {
            use_type_invariant(&*self);
        }
        match report {
            Report::KeyActivity { key, pressed } => {
                if pressed {
                    if !self.wake(now, alarms) {
                        self.navigate(key);
                    }
                }
            },
            Report::Other => {},
        }
    }

    /// Applies `key` as a navigation key.
    pub fn navigate(&mut self, key: Key)
        ensures
            final(self)@ == old(self)@.navigated(key),
            final(self)@.valid(),
    {
        proof {
            use_type_invariant(&*self);
        }
        match key {
            Key::Left => {
                self.set_page(self.current_page.prev());
            },
            Key::Right => {
                self.set_page(self.current_page.next());
            },
            Key::Up => {
                if self.scroll > 0 {
                    self.scroll -= 1;
                    self.queue_redraw();
                }
            },
            Key::Down => {
                if let Some(max_scroll) = self.max_scroll {
                    if self.scroll < max_scroll {
                        self.scroll += 1;
                        self.queue_redraw();
                    }
                }
            },
            Key::Enter | Key::Exit => {
                if self.current_page == Page::Messages {
                    // Acknowledge messages.
                    self.set_page(Page::System);
                }
            },
        }
    }

    /// Records that a list of `count` lines has been drawn with `visible`
    /// of them on screen: the scroll bound becomes known and the scroll
    /// position is pulled back to it.
    pub fn set_scroll_bound(&mut self, count: usize, visible: usize)
        ensures
            final(self)@ == old(self)@.bounded(
                StateModel::scroll_bound(count as nat, visible as nat),
            ),
            final(self)@.valid(),
    {
        proof {
            use_type_invariant(&*self);
        }
        let bound = if count > visible {
            count - visible
        } else {
            0
        };
        if self.scroll > bound {
            self.scroll = bound;
        }
        self.max_scroll = Some(bound);
    }
}

/// The scroll position stays within a known bound through every step.
pub proof fn lemma_scroll_stays_bounded(
    m: StateModel,
    report: Report,
    key: Key,
    page: Page,
    now: u64,
    alarms: bool,
    bound: nat,
)
    requires
        m.valid(),
    ensures
        StateModel::initial(now).valid(),
        m.turned_to(page).valid(),
        m.redraw_queued().valid(),
        m.redraw_done().valid(),
        m.put_to_sleep().valid(),
        m.woken(now, alarms).valid(),
        m.navigated(key).valid(),
        m.handled(report, now, alarms).valid(),
        m.bounded(bound).valid(),
{
}

/// A step that leaves another page on the screen leaves it at its top with
/// no scroll bound; so does every explicit switch, even to the same page.
pub proof fn lemma_page_change_resets_scroll(
    m: StateModel,
    report: Report,
    key: Key,
    page: Page,
    now: u64,
    alarms: bool,
    bound: nat,
)
    ensures
        m.turned_to(page).scroll == 0 && m.turned_to(page).max_scroll is None,
        m.woken(now, alarms).page != m.page ==> m.woken(now, alarms).scroll == 0 && m.woken(
            now,
            alarms,
        ).max_scroll is None,
        m.navigated(key).page != m.page ==> m.navigated(key).scroll == 0 && m.navigated(
            key,
        ).max_scroll is None,
        m.handled(report, now, alarms).page != m.page ==> m.handled(report, now, alarms).scroll
            == 0 && m.handled(report, now, alarms).max_scroll is None,
        m.redraw_queued().page == m.page,
        m.redraw_done().page == m.page,
        m.put_to_sleep().page == m.page,
        m.bounded(bound).page == m.page,
{
}

/// The key press that wakes the screen is used up by waking: whichever key
/// it is, the outcome is that of waking alone, with a redraw scheduled and
/// the deadline one timeout after `now`.  With no alarm pending, page, scroll
/// position and scroll bound stay as they were.
pub proof fn lemma_wake_consumes_key(m: StateModel, key: Key, now: u64, alarms: bool)
    requires
        !m.is_awake(),
    ensures
        m.handled(Report::KeyActivity { key, pressed: true }, now, alarms) == m.woken(now, alarms),
        m.woken(now, alarms).should_redraw,
        m.woken(now, alarms).sleep == SleepState::AwakeUntil((now + SCREEN_TIMEOUT) as u64),
        !alarms ==> m.woken(now, alarms).page == m.page && m.woken(now, alarms).scroll == m.scroll
            && m.woken(now, alarms).max_scroll == m.max_scroll,
{
}

/// Waking with an alarm pending lands on the messages page; waking with
/// none stays on the page that was shown.  A key press on a lit screen only
/// moves the deadline.
pub proof fn lemma_wake_page(m: StateModel, now: u64, alarms: bool)
    ensures
        !m.is_awake() && alarms ==> m.woken(now, alarms).page == Page::Messages,
        !m.is_awake() && !alarms ==> m.woken(now, alarms).page == m.page,
        m.is_awake() ==> m.woken(now, alarms) == (StateModel {
            sleep: SleepState::AwakeUntil((now + SCREEN_TIMEOUT) as u64),
            ..m
        }),
{
}

/// Key releases and reports that are not about keys change nothing.
pub proof fn lemma_only_presses_count(m: StateModel, key: Key, now: u64, alarms: bool)
    ensures
        m.handled(Report::KeyActivity { key, pressed: false }, now, alarms) == m,
        m.handled(Report::Other, now, alarms) == m,
{
}

} // verus!
