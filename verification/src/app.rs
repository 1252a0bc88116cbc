//! The appliance as a whole: settings, schedule, operator state, RAID
//! report and screen buffer, owned together by the control loop.
//!
//! The loop itself lives with the caller, who owns the display and the
//! metrics source:
//!
//! - it asks `step` what to do next and does it;
//! - on `Step::PollInput` it drains the display's reports into
//!   `handle_report`;
//! - on `Step::BacklightOff` it turns the backlight off;
//! - on `Step::Refresh` it darkens the lights, samples the metrics source,
//!   reads the status of each configured array, calls `refresh` and sets
//!   the lights to what comes back;
//! - on `Step::Redraw` it calls `redraw`, writes the rows of the buffer to
//!   the display and turns the backlight on;
//! - on `Step::Pause` it rests for a moment.

use crate::buffer::{blank_grid, DisplayBuffer};
use crate::config::Config;
use crate::indicator::{indicator_lights, lights, Light, NUM_LIGHTS};
use crate::listing::display_order_of;
use crate::metrics::{
    interface_names_of,
    load_line,
    memory_line,
    mount_points_of,
    Metrics,
};
use crate::page::Page;
use crate::raid::{check_md_raid, report_of, MdStatus, RaidReport};
use crate::render::{
    draw_lines,
    list_lines,
    screen,
    visible_disks,
    visible_messages,
    visible_networks,
    LIST_ROWS,
};
use crate::scheduler::{Scheduler, Step, REFRESH_INTERVAL};
use crate::state::{AppState, Report, StateModel, SCREEN_TIMEOUT};
use vstd::prelude::*;

verus! {

/// The state of the appliance.
pub struct App {
    pub config: Config,
    pub scheduler: Scheduler,
    pub state: AppState,
    pub report: RaidReport,
    pub buffer: DisplayBuffer,
}

impl App {
    /// Whether any warning or error is pending.
    pub open spec fn has_alarms(&self) -> bool {
        self.report@.errors.len() > 0 || self.report@.warnings.len() > 0
    }

    /// The scroll position that the lights follow: that of the messages
    /// page while it is on a lit screen, and else the top.
    pub open spec fn lights_scroll(&self) -> nat {
        if self.state@.is_awake() && self.state@.page == Page::Messages {
            self.state@.scroll
        } else {
            0
        }
    }

    /// The appliance at start-up: everything is due, the system page is
    /// up, the screen is about to go to sleep, and there is nothing to
    /// report or to show.
    pub fn new(config: Config, now: u64) -> (app: App)
        ensures
            app.config == config,
            app.scheduler == Scheduler::initial(now),
            app.state@ == StateModel::initial(now),
            app.report@.errors.len() == 0,
            app.report@.warnings.len() == 0,
            app.buffer@ == blank_grid(),
    {
        App {
            config,
            scheduler: Scheduler::new(now),
            state: AppState::new(now),
            report: RaidReport::new(),
            buffer: DisplayBuffer::new(),
        }
    }

    /// Says what the control loop is to do next at time `now`.
    pub fn step(&mut self, now: u64) -> (step: Step)
        requires
            now + REFRESH_INTERVAL <= u64::MAX,
        ensures
            final(self).scheduler == old(self).scheduler.stepped(old(self).state@, now).scheduler,
            final(self).state@ == old(self).scheduler.stepped(old(self).state@, now).state,
            step == old(self).scheduler.stepped(old(self).state@, now).step,
            final(self).config == old(self).config,
            final(self).report == old(self).report,
            final(self).buffer == old(self).buffer,
    {
        self.scheduler.step(&mut self.state, now)
    }

    /// Handles one report of the display, received at time `now`.  A key
    /// press that wakes the screen lands on the messages page if a warning
    /// or an error is pending.
    pub fn handle_report(&mut self, report: Report, now: u64)
        requires
            now + SCREEN_TIMEOUT <= u64::MAX,
        ensures
            final(self).state@ == old(self).state@.handled(report, now, old(self).has_alarms()),
            final(self).config == old(self).config,
            final(self).scheduler == old(self).scheduler,
            final(self).report == old(self).report,
            final(self).buffer == old(self).buffer,
    {
        let alarms = self.report.has_alarms();
        self.state.handle_report(report, now, alarms);
    }

    /// Takes in the readings `statuses` of the configured arrays, given in
    /// the order of the configuration, and says what the lights are to
    /// show.  The report is rebuilt from nothing.  A lit screen is
    /// scheduled for a redraw.
    pub fn refresh(&mut self, statuses: &Vec<MdStatus>) -> (out: [Light; NUM_LIGHTS])
        ensures
            final(self).report@ == report_of(
                old(self).config.disk.md_raid.deep_view(),
                statuses@,
                old(self).config.disk.md_raid.len() as nat,
            ),
            out@ == lights(
                final(self).report@.errors.len(),
                final(self).report@.warnings.len(),
                old(self).lights_scroll(),
            ),
            final(self).state@ == if old(self).state@.is_awake() {
                old(self).state@.redraw_queued()
            } else {
                old(self).state@
            },
            final(self).config == old(self).config,
            final(self).scheduler == old(self).scheduler,
            final(self).buffer == old(self).buffer,
    {
        self.report = check_md_raid(&self.config.disk.md_raid, statuses);
        let awake = self.state.is_awake();
        let scroll = if awake && self.state.current_page() == Page::Messages {
            self.state.scroll()
        } else {
            0
        };
        let out = indicator_lights(self.report.errors.len(), self.report.warnings.len(), scroll);
        if awake {
            self.state.queue_redraw();
        }
        out
    }

    /// Composes the current page in the buffer from the metrics `metrics`.
    ///
    /// On a list page the scroll bound becomes known, and a scroll
    /// position beyond it is pulled back before the window is taken.  The
    /// caller then writes the rows of the buffer to the display.
    pub fn redraw(&mut self, metrics: &Metrics)
        requires
            old(self).state@.page == Page::System ==> metrics.available_memory
                <= metrics.total_memory,
            old(self).report.errors.len() + old(self).report.warnings.len() <= usize::MAX,
        ensures
            final(self).state@ == if old(self).state@.page == Page::System {
                old(self).state@
            } else {
                old(self).state@.bounded(
                    StateModel::scroll_bound(
                        list_lines(
                            old(self).state@.page,
                            *metrics,
                            old(self).report@,
                            old(self).config,
                        ).len(),
                        LIST_ROWS as nat,
                    ),
                )
            },
            final(self).buffer@ == screen(
                old(self).state@.page,
                final(self).state@.scroll,
                *metrics,
                old(self).report@,
                old(self).config,
            ),
            final(self).config == old(self).config,
            final(self).scheduler == old(self).scheduler,
            final(self).report == old(self).report,
    {
        self.buffer.clear();
        let page = self.state.current_page();
        match page {
            Page::Messages => {},
            _ => {
                if let Some(name) = &metrics.host_name {
                    self.buffer.set_text(0, 0, name.as_str().as_bytes());
                }
            },
        }
        match page {
            Page::Messages => {
                let count = self.report.errors.len() + self.report.warnings.len();
                self.state.set_scroll_bound(count, LIST_ROWS);
                let lines = visible_messages(&self.report, self.state.scroll());
                draw_lines(&mut self.buffer, 0, &lines);
            },
            Page::System => {
                let mut lines: Vec<String> = Vec::new();
                lines.push(load_line(&metrics.load_average));
                lines.push(memory_line(metrics.total_memory, metrics.available_memory));
                assert(lines.deep_view() =~= crate::render::system_lines(*metrics));
                draw_lines(&mut self.buffer, 1, &lines);
            },
            Page::Disk => {
                let names = mount_points_of(&metrics.disks);
                let order = display_order_of(&names, &self.config.disk.paths);
                self.state.set_scroll_bound(order.len(), LIST_ROWS);
                let lines = visible_disks(&metrics.disks, &order, self.state.scroll());
                draw_lines(&mut self.buffer, 1, &lines);
            },
            Page::Network => {
                let names = interface_names_of(&metrics.networks);
                let order = display_order_of(&names, &self.config.network.interfaces);
                self.state.set_scroll_bound(order.len(), LIST_ROWS);
                let lines = visible_networks(&metrics.networks, &order, self.state.scroll());
                draw_lines(&mut self.buffer, 1, &lines);
            },
        }
    }
}

} // verus!
