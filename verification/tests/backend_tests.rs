use eve_multibox::hyprland::{HyprClient, HyprlandManager};
use eve_multibox::kwin::KWinManager;
use eve_multibox::model::{Monitor, Rect};
use eve_multibox::topology::{locate, monitors_from_raw, RawMonitor};
use eve_multibox::x11::{Geometry, RawX11Window, X11Manager};
use eve_multibox::xrandr::parse_monitors;

fn two_monitor_topology() -> Vec<Monitor> {
    vec![
        Monitor { name: "DP-1".to_string(), x: 0, y: 0, width: 2560, height: 1440 },
        Monitor { name: "DP-2".to_string(), x: 2560, y: 0, width: 1920, height: 1080 },
    ]
}

const WINDOW_LIST: &str = "0x06e00008  0 host EVE - Bob\n\
0x06e00009  0 host EVE - Bob (Launcher)\n\
0x06e0000a  0 host Firefox\n\
0x0000000000 0 host EVE - Ghost\n\
0x06e0000b  0 host EVE - Alice\n\
short line\n";

const GEOMETRY_LIST: &str = "0x06e00008  0 100 200 800 600 host EVE - Bob\n\
0x06e0000b  0 2700 100 800 600 host EVE - Alice\n";

#[test]
fn kwin_enumeration_filters_and_strips() {
    let monitors = two_monitor_topology();
    let windows = KWinManager::get_eve_windows(WINDOW_LIST, GEOMETRY_LIST, &monitors);
    assert_eq!(windows.len(), 2);
    assert_eq!(windows[0].id, 0x06e00008);
    assert_eq!(windows[0].title, "Bob");
    assert_eq!(windows[0].monitor.as_deref(), Some("DP-1"));
    assert_eq!(windows[1].id, 0x06e0000b);
    assert_eq!(windows[1].title, "Alice");
    assert_eq!(windows[1].monitor.as_deref(), Some("DP-2"));
}

#[test]
fn launcher_title_is_excluded() {
    let monitors = two_monitor_topology();
    let windows = KWinManager::get_eve_windows(
        "0x1 0 host EVE - Bob (Launcher)\n0x2 0 host EVE - Bob\n",
        "",
        &monitors,
    );
    assert_eq!(windows.len(), 1);
    assert_eq!(windows[0].id, 2);
    assert_eq!(windows[0].title, "Bob");
}

#[test]
fn repeated_prefix_is_stripped_entirely() {
    let monitors = two_monitor_topology();
    let windows =
        KWinManager::get_eve_windows("0x3 0 host EVE - EVE - Bob\n", "", &monitors);
    assert_eq!(windows.len(), 1);
    assert_eq!(windows[0].title, "Bob");
}

#[test]
fn kwin_find_by_title_skips_invalid_ids() {
    assert_eq!(
        KWinManager::find_window_by_title(WINDOW_LIST, "EVE - Alice"),
        Some(0x06e0000b)
    );
    assert_eq!(KWinManager::find_window_by_title(WINDOW_LIST, "EVE - Ghost"), None);
    assert_eq!(KWinManager::find_window_by_title(WINDOW_LIST, "Thunderbird"), None);
}

#[test]
fn kwin_title_lookup_by_id() {
    assert_eq!(
        KWinManager::get_window_title_by_id(WINDOW_LIST, "0x06e00008").as_deref(),
        Some("EVE - Bob")
    );
    assert_eq!(KWinManager::get_window_title_by_id(WINDOW_LIST, "0x999"), None);
}

#[test]
fn kwin_active_window_output() {
    assert_eq!(KWinManager::parse_active_window("115343368\n"), Some(115343368));
    assert_eq!(KWinManager::parse_active_window("  42 \n"), Some(42));
    assert_eq!(KWinManager::parse_active_window("none\n"), None);
    assert_eq!(KWinManager::parse_active_window(""), None);
    assert_eq!(KWinManager::parse_active_window("1 2"), None);
}

#[test]
fn kwin_move_resize_argument() {
    let r = Rect { x: -5, y: 0, width: 1200, height: 1400 };
    assert_eq!(KWinManager::move_resize_argument(&r), "0,-5,0,1200,1400");
}

#[test]
fn xrandr_output_parses_connected_monitors() {
    let text = "Screen 0: minimum 320 x 200, current 4480 x 1440\n\
DP-1 connected primary 2560x1440+0+0 (normal left inverted) 597mm x 336mm\n\
DP-2 connected 1920x1080+2560+0 (normal) 509mm x 286mm\n\
HDMI-1 disconnected (normal left inverted)\n";
    let monitors = parse_monitors(text);
    assert_eq!(monitors.len(), 2);
    assert_eq!(monitors[0].name, "DP-1");
    assert_eq!(monitors[0].x, 0);
    assert_eq!(monitors[0].width, 2560);
    assert_eq!(monitors[0].height, 1440);
    assert_eq!(monitors[1].name, "DP-2");
    assert_eq!(monitors[1].x, 2560);
    assert_eq!(monitors[1].y, 0);
}

#[test]
fn xrandr_negative_offsets_and_bad_lines() {
    let text = "eDP-1 connected 1920x1080+0+-1080 (normal)\n\
DP-3 connected garbage\n";
    let monitors = parse_monitors(text);
    assert_eq!(monitors.len(), 1);
    assert_eq!(monitors[0].name, "eDP-1");
    assert_eq!(monitors[0].y, -1080);
}

#[test]
fn locate_prefers_containing_monitor_with_first_fallback() {
    let monitors = two_monitor_topology();
    assert_eq!(locate(&monitors, 500, 700).as_deref(), Some("DP-1"));
    assert_eq!(locate(&monitors, 3100, 400).as_deref(), Some("DP-2"));
    assert_eq!(locate(&monitors, 2560, 0).as_deref(), Some("DP-2"));
    assert_eq!(locate(&monitors, 99999, 99999).as_deref(), Some("DP-1"));
    assert_eq!(locate(&Vec::new(), 0, 0), None);
}

#[test]
fn raw_monitors_skip_out_of_range_entries() {
    let raw = vec![
        RawMonitor { name: "DP-1".to_string(), x: 0, y: 0, width: 2560, height: 1440 },
        RawMonitor {
            name: "bogus".to_string(),
            x: i64::MAX,
            y: 0,
            width: 10,
            height: 10,
        },
    ];
    let monitors = monitors_from_raw(&raw);
    assert_eq!(monitors.len(), 1);
    assert_eq!(monitors[0].name, "DP-1");
}

#[test]
fn hyprland_enumeration_maps_monitor_ordinals() {
    let monitors = two_monitor_topology();
    let clients = vec![
        HyprClient {
            title: Some("EVE - Bob".to_string()),
            address: Some("0x55ade765da10".to_string()),
            monitor: Some(1),
        },
        HyprClient {
            title: Some("EVE - Bob (Launcher)".to_string()),
            address: Some("0x55ade765da20".to_string()),
            monitor: Some(0),
        },
        HyprClient {
            title: Some("EVE - Carol".to_string()),
            address: Some("0x55ade765da30".to_string()),
            monitor: Some(7),
        },
        HyprClient { title: None, address: Some("0x1".to_string()), monitor: None },
        HyprClient {
            title: Some("EVE - NoAddress".to_string()),
            address: None,
            monitor: Some(0),
        },
    ];
    let windows = HyprlandManager::get_eve_windows(&clients, &monitors);
    assert_eq!(windows.len(), 2);
    assert_eq!(windows[0].id, 0x55ade765da10);
    assert_eq!(windows[0].title, "Bob");
    assert_eq!(windows[0].monitor.as_deref(), Some("DP-2"));
    assert_eq!(windows[1].title, "Carol");
    assert_eq!(windows[1].monitor, None);
}

#[test]
fn hyprland_active_and_find() {
    assert_eq!(HyprlandManager::active_window_id(Some("0x1a2b")), Some(0x1a2b));
    assert_eq!(HyprlandManager::active_window_id(None), None);
    let clients = vec![HyprClient {
        title: Some("EVE - Dana".to_string()),
        address: Some("0xabc".to_string()),
        monitor: None,
    }];
    assert_eq!(
        HyprlandManager::find_window_by_title(&clients, "EVE - Dana"),
        Some(0xabc)
    );
    assert_eq!(HyprlandManager::find_window_by_title(&clients, "Dana"), None);
}

#[test]
fn hyprland_dispatcher_arguments() {
    assert_eq!(HyprlandManager::focus_arg(0x55a), "address:0x55a");
    assert_eq!(HyprlandManager::move_arg(0x55a, 2560, 0), "exact 2560 0,address:0x55a");
    assert_eq!(
        HyprlandManager::resize_arg(0x55a, 1920, 1040),
        "exact 1920 1040,address:0x55a"
    );
    assert_eq!(HyprlandManager::minimize_arg(0x55a), "special,address:0x55a");
    assert_eq!(HyprlandManager::restore_arg(0x55a), "e+0,address:0x55a");
}

#[test]
fn hyprland_fullscreen_rejection_detection() {
    assert!(HyprlandManager::needs_fullscreen_retry("ok\nWindow is fullscreen\n"));
    assert!(!HyprlandManager::needs_fullscreen_retry("ok"));
}

#[test]
fn x11_enumeration_locates_by_center() {
    let monitors = two_monitor_topology();
    let raw = vec![
        RawX11Window {
            id: 0x1400004,
            title: "EVE - Bob".to_string(),
            geometry: Some(Geometry { x: 100, y: 200, width: 800, height: 600 }),
        },
        RawX11Window {
            id: 0x1400005,
            title: "EVE - Bob (Launcher)".to_string(),
            geometry: None,
        },
        RawX11Window {
            id: 0x1400006,
            title: "EVE - Alice".to_string(),
            geometry: Some(Geometry { x: 2700, y: 100, width: 800, height: 600 }),
        },
        RawX11Window { id: 0, title: "EVE - Zero".to_string(), geometry: None },
    ];
    let windows = X11Manager::get_eve_windows(&raw, &monitors);
    assert_eq!(windows.len(), 2);
    assert_eq!(windows[0].id, 0x1400004);
    assert_eq!(windows[0].title, "Bob");
    assert_eq!(windows[0].monitor.as_deref(), Some("DP-1"));
    assert_eq!(windows[1].monitor.as_deref(), Some("DP-2"));
}

#[test]
fn x11_find_and_active() {
    let raw = vec![RawX11Window {
        id: 77,
        title: "EVE - Bob".to_string(),
        geometry: None,
    }];
    assert_eq!(X11Manager::find_window_by_title(&raw, "EVE - Bob"), Some(77));
    assert_eq!(X11Manager::find_window_by_title(&raw, "Bob"), None);
    assert_eq!(X11Manager::active_window_from(&vec![77, 5]), Some(77));
    assert_eq!(X11Manager::active_window_from(&vec![0]), None);
    assert_eq!(X11Manager::active_window_from(&Vec::new()), None);
}
