use eve_multibox::layout::{compute_placements, place_window};
use eve_multibox::model::{Config, Monitor, Rect, WindowRecord};

fn two_monitor_topology() -> Vec<Monitor> {
    vec![
        Monitor { name: "DP-1".to_string(), x: 0, y: 0, width: 2560, height: 1440 },
        Monitor { name: "DP-2".to_string(), x: 2560, y: 0, width: 1920, height: 1080 },
    ]
}

fn three_windows() -> Vec<WindowRecord> {
    vec![
        WindowRecord { id: 1, title: "Alice".to_string(), monitor: Some("DP-2".to_string()) },
        WindowRecord { id: 2, title: "Bob".to_string(), monitor: Some("DP-2".to_string()) },
        WindowRecord { id: 3, title: "Carol".to_string(), monitor: Some("DP-2".to_string()) },
    ]
}

fn scenario_config(fullscreen_stack: bool) -> Config {
    Config {
        display_width: 7680,
        display_height: 2160,
        panel_height: 40,
        eve_width: 1200,
        eve_height: 2116,
        primary_character: Some("Bob".to_string()),
        primary_monitor: Some("DP-1".to_string()),
        fullscreen_stack,
    }
}

#[test]
fn centered_scenario_places_primary_and_others() {
    let monitors = two_monitor_topology();
    let config = scenario_config(false);
    let placements = compute_placements(&three_windows(), &monitors, &config);
    assert_eq!(placements.len(), 3);
    let (alice_id, alice) = placements[0];
    let (bob_id, bob) = placements[1];
    let (carol_id, carol) = placements[2];
    assert_eq!(alice_id, 1);
    assert_eq!(bob_id, 2);
    assert_eq!(carol_id, 3);
    assert_eq!(bob, Rect { x: 680, y: 0, width: 1200, height: 1400 });
    assert_eq!(alice, Rect { x: 2920, y: 0, width: 1200, height: 1040 });
    assert_eq!(carol, Rect { x: 2920, y: 0, width: 1200, height: 1040 });
}

#[test]
fn stacked_scenario_fills_monitors() {
    let monitors = two_monitor_topology();
    let config = scenario_config(true);
    let placements = compute_placements(&three_windows(), &monitors, &config);
    assert_eq!(placements.len(), 3);
    assert_eq!(placements[1].1, Rect { x: 0, y: 0, width: 2560, height: 1400 });
    assert_eq!(placements[0].1, Rect { x: 2560, y: 0, width: 1920, height: 1040 });
    assert_eq!(placements[2].1, Rect { x: 2560, y: 0, width: 1920, height: 1040 });
}

#[test]
fn identical_inputs_yield_identical_placements() {
    let monitors = two_monitor_topology();
    let config = scenario_config(false);
    let windows = three_windows();
    let first = compute_placements(&windows, &monitors, &config);
    let second = compute_placements(&windows, &monitors, &config);
    assert_eq!(first.len(), second.len());
    for (a, b) in first.iter().zip(second.iter()) {
        assert_eq!(a.0, b.0);
        assert_eq!(a.1, b.1);
    }
    assert_eq!(windows.len(), 3);
    assert_eq!(monitors.len(), 2);
}

#[test]
fn stacked_height_floors_at_zero() {
    let monitors = vec![Monitor {
        name: "HDMI-1".to_string(),
        x: 0,
        y: 0,
        width: 800,
        height: 600,
    }];
    let mut config = scenario_config(true);
    config.panel_height = 700;
    config.primary_character = None;
    let w = WindowRecord { id: 9, title: "Dora".to_string(), monitor: None };
    let rect = place_window(&w, &monitors, &config);
    assert_eq!(rect.height, 0);
    assert_eq!(rect.width, 800);
}

#[test]
fn centered_width_clamps_to_monitor() {
    let monitors = vec![Monitor {
        name: "HDMI-1".to_string(),
        x: 100,
        y: 50,
        width: 800,
        height: 600,
    }];
    let mut config = scenario_config(false);
    config.eve_width = 5000;
    config.primary_character = None;
    let w = WindowRecord { id: 9, title: "Dora".to_string(), monitor: None };
    let rect = place_window(&w, &monitors, &config);
    assert_eq!(rect.width, 800);
    assert_eq!(rect.x, 100);
    assert!(rect.x >= 100 && rect.x as i64 + rect.width as i64 <= 100 + 800);
}

#[test]
fn missing_primary_monitor_falls_back_to_first() {
    let monitors = two_monitor_topology();
    let mut config = scenario_config(false);
    config.primary_monitor = Some("DP-9".to_string());
    let placements = compute_placements(&three_windows(), &monitors, &config);
    assert_eq!(placements[1].1, Rect { x: 680, y: 0, width: 1200, height: 1400 });
}

#[test]
fn empty_topology_uses_global_fallback() {
    let monitors: Vec<Monitor> = Vec::new();
    let config = scenario_config(false);
    let w = WindowRecord { id: 4, title: "Eve".to_string(), monitor: None };
    let rect = place_window(&w, &monitors, &config);
    assert_eq!(rect.x, (7680 - 1200) / 2);
    assert_eq!(rect.y, 0);
    assert_eq!(rect.width, 1200);
    assert_eq!(rect.height, 2160 - 40);
}

#[test]
fn config_fallback_helpers() {
    let config = Config::default();
    assert_eq!(config.eve_x(), ((7680 - 4150) / 2) as i32);
    assert_eq!(config.eve_y(), 0);
    assert_eq!(config.eve_height_adjusted(), 2160 - 44);
}
