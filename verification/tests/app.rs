use serverhud::app::App;
use serverhud::buffer::NUM_ROWS;
use serverhud::config::{Config, Disk, Lcd, Network};
use serverhud::indicator::Light;
use serverhud::metrics::{DiskInfo, InterfaceInfo, LoadAverage, Metrics};
use serverhud::page::Page;
use serverhud::raid::{MdStatus, MemberStatus};
use serverhud::render::LIST_ROWS;
use serverhud::scheduler::Step;
use serverhud::state::{Key, Report, SleepState};

const GIB: u64 = 1 << 30;

fn texts(list: &[&str]) -> Vec<String> {
    list.iter().map(|s| s.to_string()).collect()
}

fn config(paths: &[&str], md_raid: &[&str], interfaces: &[&str]) -> Config {
    Config {
        lcd: Lcd {
            path: "/dev/ttyUSB0".to_string(),
            screen_backlight: 50,
            keypad_backlight: 20,
        },
        disk: Disk { paths: texts(paths), md_raid: texts(md_raid) },
        network: Network { interfaces: texts(interfaces) },
    }
}

fn disk(mount_point: &str, total_gib: u64, available_gib: u64) -> DiskInfo {
    DiskInfo {
        mount_point: mount_point.to_string(),
        total_space: total_gib * GIB,
        available_space: available_gib * GIB,
    }
}

fn interface(name: &str, up: &str, down: &str) -> InterfaceInfo {
    InterfaceInfo { name: name.to_string(), up: up.to_string(), down: down.to_string() }
}

fn metrics() -> Metrics {
    Metrics {
        host_name: Some("hud".to_string()),
        load_average: LoadAverage {
            one: "0.10".to_string(),
            five: "0.20".to_string(),
            fifteen: "0.30".to_string(),
        },
        total_memory: 16_000_000,
        available_memory: 4_000_000,
        disks: vec![
            disk("/var", 100, 40),
            disk("/", 50, 10),
            disk("/home", 900, 100),
            disk("/boot", 1, 1),
            disk("/srv", 2_000, 500),
        ],
        networks: vec![
            interface("lo", "0.0", "0.0"),
            interface("eth1", "0.5", "2.5"),
            interface("eth0", "10.0", "100.0"),
        ],
    }
}

fn degraded(members: usize) -> MdStatus {
    MdStatus {
        degraded: Some("1\n".to_string()),
        raid_disks: Some(format!("{}\n", members)),
        members: (0..members).map(|_| MemberStatus::Absent).collect(),
    }
}

fn healthy() -> MdStatus {
    MdStatus {
        degraded: Some("0\n".to_string()),
        raid_disks: Some("1\n".to_string()),
        members: vec![MemberStatus::State("in_sync\n".to_string())],
    }
}

fn press(key: Key) -> Report {
    Report::KeyActivity { key, pressed: true }
}

fn rows(app: &App) -> Vec<String> {
    (0..NUM_ROWS).map(|r| String::from_utf8(app.buffer.row(r).to_vec()).unwrap()).collect()
}

/// An appliance with a lit screen on `page`.
fn lit_app(config: Config, page: Page) -> App {
    let mut app = App::new(config, 0);
    app.state.sleep();
    app.state.wake(0, false);
    app.state.set_page(page);
    app
}

#[test]
fn list_pages_show_three_lines() {
    assert_eq!(LIST_ROWS, 3);
    assert_eq!(LIST_ROWS, NUM_ROWS - 1);
}

#[test]
fn new_app_is_blank_and_quiet() {
    let app = App::new(config(&[], &["md0"], &[]), 77);
    assert_eq!(app.state.current_page(), Page::System);
    assert_eq!(app.state.sleep_state(), SleepState::AwakeUntil(77));
    assert!(!app.state.should_redraw());
    assert_eq!(app.scheduler.next_poll, 77);
    assert_eq!(app.scheduler.next_refresh, 77);
    assert!(!app.report.has_alarms());
    assert_eq!(rows(&app), vec![" ".repeat(20); 4]);
    assert_eq!(app.config.disk.md_raid, vec!["md0"]);
}

#[test]
fn system_page_shows_host_load_and_memory() {
    let mut app = lit_app(config(&[], &[], &[]), Page::System);
    app.redraw(&metrics());
    assert_eq!(
        rows(&app),
        vec![
            "hud                 ",
            "CPU: 0.10 0.20 0.30 ",
            "Mem: 12000/16000 M  ",
            "                    ",
        ]
    );
    assert_eq!(app.state.max_scroll(), None);
    assert_eq!(app.state.scroll(), 0);
}

#[test]
fn system_page_without_host_name() {
    let mut app = lit_app(config(&[], &[], &[]), Page::System);
    let mut sample = metrics();
    sample.host_name = None;
    app.redraw(&sample);
    assert_eq!(rows(&app)[0], "                    ");
    assert_eq!(rows(&app)[1], "CPU: 0.10 0.20 0.30 ");
}

#[test]
fn long_lines_are_cut_at_the_edge_of_the_screen() {
    let mut app = lit_app(config(&["/mnt/a/very/long/mount/point"], &[], &[]), Page::Disk);
    let mut sample = metrics();
    sample.host_name = Some("a-host-name-longer-than-the-screen".to_string());
    sample.disks = vec![disk("/mnt/a/very/long/mount/point", 10, 5)];
    app.redraw(&sample);
    assert_eq!(
        rows(&app),
        vec![
            "a-host-name-longer-t",
            "/mnt/a/very/long/mou",
            "                    ",
            "                    ",
        ]
    );
}

#[test]
fn disk_page_lists_disks_by_mount_point() {
    let mut app = lit_app(config(&[], &[], &[]), Page::Disk);
    app.redraw(&metrics());
    assert_eq!(
        rows(&app),
        vec![
            "hud                 ",
            "/ 40/50 G           ",
            "/boot 0/1 G         ",
            "/home 800/900 G     ",
        ]
    );
    assert_eq!(app.state.max_scroll(), Some(2));
    assert_eq!(app.state.scroll(), 0);
}

#[test]
fn disk_page_scrolls_through_the_list() {
    let mut app = lit_app(config(&[], &[], &[]), Page::Disk);
    app.redraw(&metrics());
    app.handle_report(press(Key::Down), 10);
    app.redraw(&metrics());
    assert_eq!(
        rows(&app),
        vec![
            "hud                 ",
            "/boot 0/1 G         ",
            "/home 800/900 G     ",
            "/srv 1500/2000 G    ",
        ]
    );
    app.handle_report(press(Key::Down), 20);
    app.handle_report(press(Key::Down), 30);
    assert_eq!(app.state.scroll(), 2);
    app.redraw(&metrics());
    assert_eq!(
        rows(&app),
        vec![
            "hud                 ",
            "/home 800/900 G     ",
            "/srv 1500/2000 G    ",
            "/var 60/100 G       ",
        ]
    );
}

#[test]
fn disk_page_follows_the_allow_list() {
    let mut app = lit_app(config(&["/srv", "/mnt/gone", "/"], &[], &[]), Page::Disk);
    app.redraw(&metrics());
    assert_eq!(
        rows(&app),
        vec![
            "hud                 ",
            "/srv 1500/2000 G    ",
            "/ 40/50 G           ",
            "                    ",
        ]
    );
    assert_eq!(app.state.max_scroll(), Some(0));
}

#[test]
fn disk_mounted_twice_is_shown_once_by_its_last_entry() {
    let mut app = lit_app(config(&[], &[], &[]), Page::Disk);
    let mut sample = metrics();
    sample.disks = vec![disk("/data", 10, 1), disk("/", 5, 5), disk("/data", 20, 2)];
    app.redraw(&sample);
    assert_eq!(
        rows(&app),
        vec![
            "hud                 ",
            "/ 0/5 G             ",
            "/data 18/20 G       ",
            "                    ",
        ]
    );
}

#[test]
fn network_page_lists_interfaces_by_name() {
    let mut app = lit_app(config(&[], &[], &[]), Page::Network);
    app.redraw(&metrics());
    assert_eq!(
        rows(&app),
        vec![
            "hud                 ",
            "eth0 10.0/100.0 M   ",
            "eth1 0.5/2.5 M      ",
            "lo 0.0/0.0 M        ",
        ]
    );
    assert_eq!(app.state.max_scroll(), Some(0));
}

#[test]
fn network_page_follows_the_allow_list() {
    let mut app = lit_app(config(&[], &[], &["eth1", "wlan0", "eth0"]), Page::Network);
    app.redraw(&metrics());
    assert_eq!(
        rows(&app),
        vec![
            "hud                 ",
            "eth1 0.5/2.5 M      ",
            "eth0 10.0/100.0 M   ",
            "                    ",
        ]
    );
}

#[test]
fn disk_allow_list_does_not_touch_the_network_page() {
    let mut app = lit_app(config(&["/"], &[], &[]), Page::Network);
    app.redraw(&metrics());
    assert_eq!(rows(&app)[3], "lo 0.0/0.0 M        ");
}

#[test]
fn messages_page_lists_errors_before_warnings() {
    let mut app = lit_app(config(&[], &["md0"], &[]), Page::Messages);
    app.refresh(&vec![degraded(1)]);
    app.redraw(&metrics());
    assert_eq!(
        rows(&app),
        vec![
            "md0: rd0 NOTFOUND   ",
            "md: md0 DEGRADED    ",
            "                    ",
            "                    ",
        ]
    );
    assert_eq!(app.state.max_scroll(), Some(0));
}

#[test]
fn messages_page_has_no_host_name_and_scrolls() {
    let mut app = lit_app(config(&[], &["md0", "md1"], &[]), Page::Messages);
    app.refresh(&vec![degraded(2), degraded(1)]);
    app.redraw(&metrics());
    assert_eq!(
        rows(&app),
        vec![
            "md0: rd0 NOTFOUND   ",
            "md0: rd1 NOTFOUND   ",
            "md1: rd0 NOTFOUND   ",
            "                    ",
        ]
    );
    assert_eq!(app.state.max_scroll(), Some(2));
    app.handle_report(press(Key::Down), 10);
    app.handle_report(press(Key::Down), 20);
    app.handle_report(press(Key::Down), 30);
    assert_eq!(app.state.scroll(), 2);
    app.redraw(&metrics());
    assert_eq!(
        rows(&app),
        vec![
            "md1: rd0 NOTFOUND   ",
            "md: md0 DEGRADED    ",
            "md: md1 DEGRADED    ",
            "                    ",
        ]
    );
}

#[test]
fn empty_messages_page_is_blank() {
    let mut app = lit_app(config(&[], &[], &[]), Page::Messages);
    app.redraw(&metrics());
    assert_eq!(rows(&app), vec![" ".repeat(20); 4]);
    assert_eq!(app.state.max_scroll(), Some(0));
}

#[test]
fn redraw_pulls_scroll_back_when_the_list_shrinks() {
    let mut app = lit_app(config(&[], &[], &[]), Page::Disk);
    app.redraw(&metrics());
    app.handle_report(press(Key::Down), 10);
    app.handle_report(press(Key::Down), 20);
    assert_eq!(app.state.scroll(), 2);
    let mut sample = metrics();
    sample.disks.truncate(4);
    app.redraw(&sample);
    assert_eq!(app.state.scroll(), 1);
    assert_eq!(app.state.max_scroll(), Some(1));
    assert_eq!(
        rows(&app),
        vec![
            "hud                 ",
            "/boot 0/1 G         ",
            "/home 800/900 G     ",
            "/var 60/100 G       ",
        ]
    );
}

#[test]
fn redraw_starts_from_a_blank_screen() {
    let mut app = lit_app(config(&[], &[], &[]), Page::Disk);
    app.redraw(&metrics());
    app.handle_report(press(Key::Left), 10);
    let mut sample = metrics();
    sample.host_name = Some("h".to_string());
    sample.load_average.one = "1".to_string();
    sample.load_average.five = "2".to_string();
    sample.load_average.fifteen = "3".to_string();
    app.redraw(&sample);
    assert_eq!(
        rows(&app),
        vec![
            "h                   ",
            "CPU: 1 2 3          ",
            "Mem: 12000/16000 M  ",
            "                    ",
        ]
    );
}

#[test]
fn redraw_leaves_flag_and_report_alone() {
    let mut app = lit_app(config(&[], &["md0"], &[]), Page::Disk);
    app.refresh(&vec![degraded(1)]);
    assert!(app.state.should_redraw());
    app.redraw(&metrics());
    assert!(app.state.should_redraw());
    assert_eq!(app.report.warnings, vec!["md: md0 DEGRADED"]);
    assert_eq!(app.state.current_page(), Page::Disk);
}

#[test]
fn refresh_reports_and_sets_lights() {
    let mut app = App::new(config(&[], &["md0", "md1"], &[]), 0);
    let lights = app.refresh(&vec![degraded(1), healthy()]);
    assert_eq!(lights, [Light::Error, Light::Warning, Light::Off, Light::Off]);
    assert_eq!(app.report.errors, vec!["md0: rd0 NOTFOUND"]);
    assert_eq!(app.report.warnings, vec!["md: md0 DEGRADED"]);
    let lights = app.refresh(&vec![healthy(), healthy()]);
    assert_eq!(lights, [Light::Idle, Light::Off, Light::Off, Light::Off]);
    assert!(!app.report.has_alarms());
}

#[test]
fn refresh_without_readings_warns_about_every_array() {
    let mut app = App::new(config(&[], &["md0", "md1"], &[]), 0);
    let lights = app.refresh(&Vec::new());
    assert_eq!(lights, [Light::Warning, Light::Warning, Light::Off, Light::Off]);
    assert_eq!(app.report.warnings, vec!["md0: query error", "md1: query error"]);
}

#[test]
fn refresh_queues_redraw_only_on_a_lit_screen() {
    let mut app = App::new(config(&[], &[], &[]), 0);
    app.state.sleep();
    app.refresh(&Vec::new());
    assert!(!app.state.should_redraw());
    app.state.wake(5, false);
    app.state.clear_redraw();
    app.refresh(&Vec::new());
    assert!(app.state.should_redraw());
}

#[test]
fn lights_follow_the_scroll_of_the_messages_page() {
    let mut app = lit_app(config(&[], &["md0"], &[]), Page::Messages);
    app.refresh(&vec![degraded(2)]);
    app.redraw(&metrics());
    assert_eq!(app.state.max_scroll(), Some(0));
    let mut app = lit_app(config(&[], &["md0"], &[]), Page::Messages);
    app.refresh(&vec![degraded(4)]);
    app.redraw(&metrics());
    app.handle_report(press(Key::Down), 10);
    app.handle_report(press(Key::Down), 20);
    assert_eq!(app.state.scroll(), 2);
    let lights = app.refresh(&vec![degraded(4)]);
    assert_eq!(lights, [Light::Error, Light::Error, Light::Warning, Light::Off]);
}

#[test]
fn lights_ignore_scroll_on_other_pages_and_when_asleep() {
    let mut app = lit_app(config(&[], &["md0"], &[]), Page::Disk);
    app.redraw(&metrics());
    app.handle_report(press(Key::Down), 10);
    assert_eq!(app.state.scroll(), 1);
    let lights = app.refresh(&vec![degraded(1)]);
    assert_eq!(lights, [Light::Error, Light::Warning, Light::Off, Light::Off]);

    let mut app = lit_app(config(&[], &["md0"], &[]), Page::Messages);
    app.refresh(&vec![degraded(4)]);
    app.redraw(&metrics());
    app.handle_report(press(Key::Down), 10);
    app.state.sleep();
    let lights = app.refresh(&vec![degraded(4)]);
    assert_eq!(lights, [Light::Error, Light::Error, Light::Error, Light::Error]);
}

#[test]
fn waking_with_pending_alarms_shows_messages() {
    let mut app = App::new(config(&[], &["md0"], &[]), 0);
    app.state.sleep();
    app.refresh(&vec![degraded(1)]);
    app.handle_report(press(Key::Right), 100);
    assert_eq!(app.state.current_page(), Page::Messages);
    assert!(app.state.should_redraw());
    assert_eq!(app.state.sleep_state(), SleepState::AwakeUntil(15_100));
}

#[test]
fn waking_without_alarms_stays_on_the_page() {
    let mut app = App::new(config(&[], &["md0"], &[]), 0);
    app.state.set_page(Page::Network);
    app.state.clear_redraw();
    app.state.sleep();
    app.refresh(&vec![healthy()]);
    app.handle_report(press(Key::Right), 100);
    assert_eq!(app.state.current_page(), Page::Network);
    assert!(app.state.should_redraw());
}

#[test]
fn acknowledging_messages_returns_to_system_page() {
    let mut app = App::new(config(&[], &["md0"], &[]), 0);
    app.state.sleep();
    app.refresh(&vec![degraded(1)]);
    app.handle_report(press(Key::Up), 100);
    assert_eq!(app.state.current_page(), Page::Messages);
    app.handle_report(press(Key::Right), 200);
    assert_eq!(app.state.current_page(), Page::Messages);
    app.handle_report(press(Key::Enter), 300);
    assert_eq!(app.state.current_page(), Page::System);
}

#[test]
fn control_loop_from_start_to_first_screen() {
    let mut app = App::new(config(&[], &["md0"], &[]), 0);
    // First tick: everything is due and the screen goes dark.
    assert_eq!(app.step(0), Step::PollInput);
    assert_eq!(app.step(0), Step::BacklightOff);
    assert_eq!(app.step(1), Step::Refresh);
    let lights = app.refresh(&vec![degraded(1)]);
    assert_eq!(lights[0], Light::Error);
    assert_eq!(app.step(2), Step::Pause);
    // A key is pressed: the screen wakes on the messages page and is drawn
    // in the same tick.
    assert_eq!(app.step(12), Step::PollInput);
    app.handle_report(press(Key::Down), 13);
    app.handle_report(Report::KeyActivity { key: Key::Down, pressed: false }, 14);
    assert_eq!(app.step(15), Step::Redraw);
    app.redraw(&metrics());
    assert_eq!(rows(&app)[0], "md0: rd0 NOTFOUND   ");
    assert_eq!(rows(&app)[1], "md: md0 DEGRADED    ");
    assert_eq!(app.step(16), Step::Pause);
    assert!(app.state.is_awake());
    assert_eq!(app.state.scroll(), 0);
}
