use eve_multibox::sway::{FieldPresence, SwayManager, TreeNode};

fn leaf(
    node_type: &str,
    name: Option<&str>,
    id: Option<u64>,
    focused: bool,
    app_id: FieldPresence,
    window_properties: FieldPresence,
) -> TreeNode {
    TreeNode {
        node_type: node_type.to_string(),
        name: name.map(|s| s.to_string()),
        id,
        focused,
        app_id,
        window_properties,
        nodes: Vec::new(),
        floating_nodes: Vec::new(),
    }
}

fn sample_tree() -> TreeNode {
    let bob = leaf(
        "con",
        Some("EVE - Bob"),
        Some(11),
        false,
        FieldPresence::Value,
        FieldPresence::Absent,
    );
    let launcher = leaf(
        "con",
        Some("EVE - Bob (Launcher)"),
        Some(12),
        false,
        FieldPresence::Value,
        FieldPresence::Absent,
    );
    let editor = leaf(
        "con",
        Some("editor"),
        Some(13),
        true,
        FieldPresence::Value,
        FieldPresence::Absent,
    );
    let workspace_one = TreeNode {
        node_type: "workspace".to_string(),
        name: Some("1".to_string()),
        id: Some(100),
        focused: false,
        app_id: FieldPresence::Absent,
        window_properties: FieldPresence::Absent,
        nodes: vec![bob, launcher],
        floating_nodes: vec![editor],
    };
    let alice = leaf(
        "floating_con",
        Some("EVE - Alice"),
        Some(21),
        false,
        FieldPresence::Absent,
        FieldPresence::Value,
    );
    let nameless = leaf(
        "con",
        None,
        Some(22),
        false,
        FieldPresence::Value,
        FieldPresence::Absent,
    );
    let skipped = leaf(
        "con",
        Some("EVE - Skipped"),
        Some(23),
        false,
        FieldPresence::Null,
        FieldPresence::Value,
    );
    let workspace_two = TreeNode {
        node_type: "workspace".to_string(),
        name: Some("2".to_string()),
        id: Some(200),
        focused: false,
        app_id: FieldPresence::Absent,
        window_properties: FieldPresence::Absent,
        nodes: vec![alice, nameless, skipped],
        floating_nodes: Vec::new(),
    };
    let output_one = TreeNode {
        node_type: "output".to_string(),
        name: Some("DP-1".to_string()),
        id: Some(1000),
        focused: false,
        app_id: FieldPresence::Absent,
        window_properties: FieldPresence::Absent,
        nodes: vec![workspace_one],
        floating_nodes: Vec::new(),
    };
    let output_two = TreeNode {
        node_type: "output".to_string(),
        name: Some("DP-2".to_string()),
        id: Some(2000),
        focused: false,
        app_id: FieldPresence::Absent,
        window_properties: FieldPresence::Absent,
        nodes: vec![workspace_two],
        floating_nodes: Vec::new(),
    };
    TreeNode {
        node_type: "root".to_string(),
        name: Some("root".to_string()),
        id: Some(1),
        focused: false,
        app_id: FieldPresence::Absent,
        window_properties: FieldPresence::Absent,
        nodes: vec![output_one, output_two],
        floating_nodes: Vec::new(),
    }
}

#[test]
fn tree_walk_inherits_output_names() {
    let tree = sample_tree();
    let windows = SwayManager::get_eve_windows(&tree);
    assert_eq!(windows.len(), 2);
    assert_eq!(windows[0].id, 11);
    assert_eq!(windows[0].title, "Bob");
    assert_eq!(windows[0].monitor.as_deref(), Some("DP-1"));
    assert_eq!(windows[1].id, 21);
    assert_eq!(windows[1].title, "Alice");
    assert_eq!(windows[1].monitor.as_deref(), Some("DP-2"));
}

#[test]
fn walk_visits_floating_children() {
    let tree = sample_tree();
    let all = SwayManager::all_windows(&tree);
    let ids: Vec<Option<u64>> = all.iter().map(|w| w.id).collect();
    assert!(ids.contains(&Some(13)));
    assert!(ids.contains(&Some(21)));
    assert!(ids.contains(&Some(22)));
}

#[test]
fn null_app_id_with_properties_is_not_a_candidate() {
    let tree = sample_tree();
    let all = SwayManager::all_windows(&tree);
    let ids: Vec<Option<u64>> = all.iter().map(|w| w.id).collect();
    assert!(!ids.contains(&Some(23)));
    let windows = SwayManager::get_eve_windows(&tree);
    assert!(windows.iter().all(|w| w.title != "Skipped"));
}

#[test]
fn focused_window_is_found() {
    let tree = sample_tree();
    assert_eq!(SwayManager::get_active_window(&tree), Some(13));
}

#[test]
fn find_by_exact_title() {
    let tree = sample_tree();
    assert_eq!(SwayManager::find_window_by_title(&tree, "EVE - Alice"), Some(21));
    assert_eq!(SwayManager::find_window_by_title(&tree, "Alice"), None);
}

#[test]
fn command_strings() {
    assert_eq!(SwayManager::focus_command(42), "[con_id=42] focus");
    assert_eq!(
        SwayManager::floating_enable_command(42),
        "[con_id=42] floating enable"
    );
    assert_eq!(
        SwayManager::move_command(42, 2560, -10),
        "[con_id=42] move position 2560 -10"
    );
    assert_eq!(
        SwayManager::resize_command(42, 1920, 1040),
        "[con_id=42] resize set 1920 1040"
    );
    assert_eq!(SwayManager::minimize_command(42), "[con_id=42] move scratchpad");
    assert_eq!(SwayManager::restore_command(42), "[con_id=42] scratchpad show");
}
