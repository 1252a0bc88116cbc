//! How a page becomes a screenful of text.
//!
//! Every page starts from a blank grid.  All pages but the messages page
//! carry the host name in the top row.  The list pages show a window of
//! `LIST_ROWS` lines of their list, starting at the scroll position.

use crate::buffer::{blank_grid, overlay, DisplayBuffer, NUM_ROWS};
use crate::config::Config;
use crate::listing::{display_order, keys, positions};
use crate::metrics::{
    disk_line,
    disk_text,
    interface_names,
    load_text,
    memory_text,
    mount_points,
    network_line,
    network_text,
    DiskInfo,
    InterfaceInfo,
    Metrics,
};
use crate::page::Page;
use crate::raid::{RaidReport, ReportModel};
use vstd::prelude::*;
use vstd::utf8::encode_utf8;

verus! {

/// Number of list lines that are on screen at once.
pub const LIST_ROWS: usize = NUM_ROWS - 1;

/// `grid` with `text` written from the start of row `row`.
pub open spec fn put_line(grid: Seq<Seq<u8>>, row: int, text: Seq<char>) -> Seq<Seq<u8>> {
    grid.update(row, overlay(grid[row], 0, encode_utf8(text)))
}

/// `grid` with `lines` written into consecutive rows from `first_row` on.
pub open spec fn put_lines(grid: Seq<Seq<u8>>, first_row: int, lines: Seq<Seq<char>>) -> Seq<
    Seq<u8>,
>
    decreases lines.len(),
{
    if lines.len() == 0 {
        grid
    } else {
        put_line(
            put_lines(grid, first_row, lines.drop_last()),
            first_row + lines.len() - 1,
            lines.last(),
        )
    }
}

/// Where the window that starts at `scroll` ends in a list of `count`
/// lines.
pub open spec fn window_end(count: int, scroll: int) -> int {
    if scroll + LIST_ROWS < count {
        scroll + LIST_ROWS
    } else {
        count
    }
}

/// The lines of a list that are on screen when it is scrolled to `scroll`.
pub open spec fn window(lines: Seq<Seq<char>>, scroll: int) -> Seq<Seq<char>> {
    lines.subrange(scroll, window_end(lines.len() as int, scroll))
}

/// The message list: errors first, then warnings.
pub open spec fn message_lines(report: ReportModel) -> Seq<Seq<char>> {
    report.errors + report.warnings
}

/// The lines for the disks at the positions `order`.
pub open spec fn disk_lines_at(disks: Seq<DiskInfo>, order: Seq<int>) -> Seq<Seq<char>> {
    Seq::new(order.len(), |p: int| disk_text(disks[order[p]]))
}

/// The lines for the interfaces at the positions `order`.
pub open spec fn network_lines_at(nets: Seq<InterfaceInfo>, order: Seq<int>) -> Seq<Seq<char>> {
    Seq::new(order.len(), |p: int| network_text(nets[order[p]]))
}

/// The disk list: the disks that `allow` picks, or all of them by mount
/// point.
pub open spec fn disk_lines(disks: Seq<DiskInfo>, allow: Seq<Seq<char>>) -> Seq<Seq<char>> {
    disk_lines_at(disks, display_order(keys(mount_points(disks)), keys(allow)))
}

/// The interface list: the interfaces that `allow` picks, or all of them
/// by name.
pub open spec fn network_lines(nets: Seq<InterfaceInfo>, allow: Seq<Seq<char>>) -> Seq<Seq<char>> {
    network_lines_at(nets, display_order(keys(interface_names(nets)), keys(allow)))
}

/// The whole list that a list page scrolls through; nothing for the system
/// page, which does not scroll.
pub open spec fn list_lines(
    page: Page,
    metrics: Metrics,
    report: ReportModel,
    config: Config,
) -> Seq<Seq<char>> {
    match page {
        Page::Messages => message_lines(report),
        Page::System => Seq::empty(),
        Page::Disk => disk_lines(metrics.disks@, config.disk.paths.deep_view()),
        Page::Network => network_lines(metrics.networks@, config.network.interfaces.deep_view()),
    }
}

/// The two lines of the system page.
pub open spec fn system_lines(metrics: Metrics) -> Seq<Seq<char>> {
    seq![
        load_text(metrics.load_average),
        memory_text(metrics.total_memory as nat, metrics.available_memory as nat),
    ]
}

/// A blank grid with the host name, if there is one, in the top row.
pub open spec fn titled(metrics: Metrics) -> Seq<Seq<u8>> {
    match metrics.host_name {
        Some(name) => put_line(blank_grid(), 0, name@),
        None => blank_grid(),
    }
}

/// What `page` looks like when scrolled to `scroll`.
pub open spec fn screen(
    page: Page,
    scroll: nat,
    metrics: Metrics,
    report: ReportModel,
    config: Config,
) -> Seq<Seq<u8>> {
    match page {
        Page::Messages => put_lines(blank_grid(), 0, window(message_lines(report), scroll as int)),
        Page::System => put_lines(titled(metrics), 1, system_lines(metrics)),
        _ => put_lines(
            titled(metrics),
            1,
            window(list_lines(page, metrics, report, config), scroll as int),
        ),
    }
}

/// Writes `lines` into consecutive rows of `buffer` from `first_row` on.
pub fn draw_lines(buffer: &mut DisplayBuffer, first_row: usize, lines: &Vec<String>)
    requires
        first_row + lines.len() <= NUM_ROWS,
    ensures
        final(buffer)@ == put_lines(old(buffer)@, first_row as int, lines.deep_view()),
{
    let ghost texts = lines.deep_view();
    let mut i: usize = 0;
    assert(texts.take(0) =~= Seq::<Seq<char>>::empty());
    while i < lines.len()
        invariant
            i <= lines.len(),
            first_row + lines.len() <= NUM_ROWS,
            texts == lines.deep_view(),
            buffer@ == put_lines(old(buffer)@, first_row as int, texts.take(i as int)),
        decreases lines.len() - i,
    {
        let ghost shown = texts.take(i + 1);
        assert(shown.drop_last() =~= texts.take(i as int));
        assert(shown.last() == lines[i as int]@);
        buffer.set_text(first_row + i, 0, lines[i].as_str().as_bytes());
        i += 1;
    }
    assert(texts.take(i as int) =~= texts);
}

/// Where the window that starts at `scroll` ends in a list of `count`
/// lines.
pub fn window_end_of(count: usize, scroll: usize) -> (end: usize)
    requires
        scroll <= count,
    ensures
        end == window_end(count as int, scroll as int),
        scroll <= end <= count,
        end - scroll <= LIST_ROWS,
{
    if count - scroll > LIST_ROWS {
        scroll + LIST_ROWS
    } else {
        count
    }
}

/// The messages that are on screen when the list is scrolled to `scroll`.
pub fn visible_messages(report: &RaidReport, scroll: usize) -> (lines: Vec<String>)
    requires
        report.errors.len() + report.warnings.len() <= usize::MAX,
        scroll <= report.errors.len() + report.warnings.len(),
    ensures
        lines.deep_view() == window(message_lines(report@), scroll as int),
        lines.len() <= LIST_ROWS,
{
    let errors = report.errors.len();
    let end = window_end_of(errors + report.warnings.len(), scroll);
    let ghost all = message_lines(report@);
    let mut lines: Vec<String> = Vec::new();
    let mut p: usize = scroll;
    while p < end
        invariant
            scroll <= p <= end,
            end <= report.errors.len() + report.warnings.len(),
            errors == report.errors.len(),
            all == message_lines(report@),
            lines.len() == p - scroll,
            forall|j: int| 0 <= j < lines.len() ==> lines[j]@ == all[scroll + j],
        decreases end - p,
    {
        let line = if p < errors {
            report.errors[p].clone()
        } else {
            report.warnings[p - errors].clone()
        };
        lines.push(line);
        p += 1;
    }
    assert(lines.deep_view() =~= window(all, scroll as int));
    lines
}

/// The disk lines that are on screen when the list `order` is scrolled to
/// `scroll`.
pub fn visible_disks(disks: &Vec<DiskInfo>, order: &Vec<usize>, scroll: usize) -> (lines: Vec<
    String,
>)
    requires
        scroll <= order.len(),
        forall|p: int| 0 <= p < order.len() ==> order[p] < disks.len(),
    ensures
        lines.deep_view() == window(disk_lines_at(disks@, positions(order@)), scroll as int),
        lines.len() <= LIST_ROWS,
{
    let end = window_end_of(order.len(), scroll);
    let ghost all = disk_lines_at(disks@, positions(order@));
    let mut lines: Vec<String> = Vec::new();
    let mut p: usize = scroll;
    while p < end
        invariant
            scroll <= p <= end,
            end <= order.len(),
            all == disk_lines_at(disks@, positions(order@)),
            forall|q: int| 0 <= q < order.len() ==> order[q] < disks.len(),
            lines.len() == p - scroll,
            forall|j: int| 0 <= j < lines.len() ==> lines[j]@ == all[scroll + j],
        decreases end - p,
    {
        lines.push(disk_line(&disks[order[p]]));
        p += 1;
    }
    assert(lines.deep_view() =~= window(all, scroll as int));
    lines
}

/// The interface lines that are on screen when the list `order` is
/// scrolled to `scroll`.
pub fn visible_networks(nets: &Vec<InterfaceInfo>, order: &Vec<usize>, scroll: usize) -> (lines:
    Vec<String>)
    requires
        scroll <= order.len(),
        forall|p: int| 0 <= p < order.len() ==> order[p] < nets.len(),
    ensures
        lines.deep_view() == window(network_lines_at(nets@, positions(order@)), scroll as int),
        lines.len() <= LIST_ROWS,
{
    let end = window_end_of(order.len(), scroll);
    let ghost all = network_lines_at(nets@, positions(order@));
    let mut lines: Vec<String> = Vec::new();
    let mut p: usize = scroll;
    while p < end
        invariant
            scroll <= p <= end,
            end <= order.len(),
            all == network_lines_at(nets@, positions(order@)),
            forall|q: int| 0 <= q < order.len() ==> order[q] < nets.len(),
            lines.len() == p - scroll,
            forall|j: int| 0 <= j < lines.len() ==> lines[j]@ == all[scroll + j],
        decreases end - p,
    {
        lines.push(network_line(&nets[order[p]]));
        p += 1;
    }
    assert(lines.deep_view() =~= window(all, scroll as int));
    lines
}

} // verus!
