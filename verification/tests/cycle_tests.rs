use eve_multibox::cycle::CycleState;
use eve_multibox::model::WindowRecord;

fn window(id: u64, title: &str) -> WindowRecord {
    WindowRecord { id, title: title.to_string(), monitor: None }
}

fn five_windows() -> Vec<WindowRecord> {
    (1..=5).map(|i| window(i, &format!("w{}", i))).collect()
}

#[test]
fn forward_wraps_and_reports_focus_target() {
    let mut state = CycleState::new();
    state.update_windows(five_windows());
    assert_eq!(state.get_current_index(), 0);
    assert_eq!(state.cycle_forward(), Some(2));
    assert_eq!(state.cycle_forward(), Some(3));
    assert_eq!(state.get_current_index(), 2);
    state.cycle_forward();
    state.cycle_forward();
    assert_eq!(state.get_current_index(), 4);
    assert_eq!(state.cycle_forward(), Some(1));
    assert_eq!(state.get_current_index(), 0);
}

#[test]
fn backward_wraps_to_last() {
    let mut state = CycleState::new();
    state.update_windows(five_windows());
    assert_eq!(state.cycle_backward(), Some(5));
    assert_eq!(state.get_current_index(), 4);
    assert_eq!(state.cycle_backward(), Some(4));
}

#[test]
fn forward_then_backward_returns_to_start() {
    let mut state = CycleState::new();
    state.update_windows(five_windows());
    state.sync_with_active(3);
    let start = state.get_current_index();
    for _ in 0..5 {
        state.cycle_forward();
        state.cycle_backward();
    }
    assert_eq!(state.get_current_index(), start);
}

#[test]
fn cycling_empty_state_is_a_noop() {
    let mut state = CycleState::new();
    assert_eq!(state.cycle_forward(), None);
    assert_eq!(state.cycle_backward(), None);
    assert_eq!(state.get_current_index(), 0);
    assert_eq!(state.get_windows().len(), 0);
}

#[test]
fn empty_install_resets_pointer_for_next_install() {
    let mut state = CycleState::new();
    state.update_windows(five_windows());
    state.sync_with_active(4);
    assert_eq!(state.get_current_index(), 3);
    state.update_windows(Vec::new());
    assert_eq!(state.get_windows().len(), 0);
    assert_eq!(state.get_current_index(), 0);
    state.update_windows(five_windows());
    assert_eq!(state.get_current_index(), 0);
}

#[test]
fn reinstall_preserves_index_in_range_and_clamps_otherwise() {
    let mut state = CycleState::new();
    state.update_windows(five_windows());
    state.sync_with_active(4);
    assert_eq!(state.get_current_index(), 3);
    state.update_windows(five_windows());
    assert_eq!(state.get_current_index(), 3);
    state.update_windows(vec![window(7, "w7"), window(8, "w8")]);
    assert_eq!(state.get_current_index(), 0);
}

#[test]
fn sync_with_active_matches_first_occurrence() {
    let mut state = CycleState::new();
    state.update_windows(vec![window(10, "a"), window(20, "b"), window(20, "c")]);
    state.sync_with_active(20);
    assert_eq!(state.get_current_index(), 1);
    state.sync_with_active(999);
    assert_eq!(state.get_current_index(), 1);
}
