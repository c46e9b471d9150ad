use chain_sync::tui_view::is_node_log_name;
use chain_sync::tui_view::latest_log_index;
use chain_sync::tui_view::TuiAction;
use chain_sync::tui_view::TuiKey;
use chain_sync::tui_view::TuiState;

fn bytes(s: &str) -> Vec<u8> {
    s.as_bytes().to_vec()
}

#[test]
fn quit_key_exits_without_touching_state() {
    let mut s = TuiState::new();
    s.log_scroll = 3;
    let a = s.handle_key(TuiKey::CharKey { c: 'q' });
    assert_eq!(a, TuiAction::Exit);
    assert_eq!(s.log_scroll, 3);
}

#[test]
fn clear_key_requests_a_clear_and_reset_follows() {
    let mut s = TuiState::new();
    s.log_scroll = 5;
    let a = s.handle_key(TuiKey::CharKey { c: 'c' });
    assert_eq!(a, TuiAction::ClearLog);
    assert_eq!(s.log_scroll, 5);
    s.on_log_cleared();
    assert_eq!(s.log_scroll, 0);
}

#[test]
fn arrows_scroll_with_saturation() {
    let mut s = TuiState::new();
    assert_eq!(s.handle_key(TuiKey::UpKey), TuiAction::Continue);
    assert_eq!(s.log_scroll, 0);
    assert_eq!(s.handle_key(TuiKey::DownKey), TuiAction::Continue);
    assert_eq!(s.log_scroll, 1);
    assert_eq!(s.handle_key(TuiKey::UpKey), TuiAction::Continue);
    assert_eq!(s.log_scroll, 0);
    s.log_scroll = u16::MAX;
    assert_eq!(s.handle_key(TuiKey::DownKey), TuiAction::Continue);
    assert_eq!(s.log_scroll, u16::MAX);
}

#[test]
fn other_keys_do_nothing() {
    let mut s = TuiState::new();
    s.log_scroll = 2;
    assert_eq!(s.handle_key(TuiKey::CharKey { c: 'x' }), TuiAction::Continue);
    assert_eq!(s.handle_key(TuiKey::OtherKey), TuiAction::Continue);
    assert_eq!(s.log_scroll, 2);
}

#[test]
fn node_log_names_need_prefix_and_suffix() {
    assert!(is_node_log_name(&bytes("snap-coin-node_2024-01-01.log")));
    assert!(!is_node_log_name(&bytes("other-node_2024.log")));
    assert!(!is_node_log_name(&bytes("snap-coin-node_2024.txt")));
    assert!(!is_node_log_name(&bytes("snap.log")));
    assert!(!is_node_log_name(&bytes("")));
}

#[test]
fn latest_log_picks_greatest_mtime_with_later_tie() {
    let names = vec![
        bytes("snap-coin-node_a.log"),
        bytes("unrelated.txt"),
        bytes("snap-coin-node_b.log"),
        bytes("snap-coin-node_c.log"),
    ];
    let mtimes = vec![50u64, 99, 40, 50];
    // the unrelated entry's large mtime does not count; among the two
    // node logs tied at 50, the later entry wins
    assert_eq!(latest_log_index(&names, &mtimes), Some(3));
}

#[test]
fn latest_log_is_none_without_node_logs() {
    let names = vec![bytes("a.txt"), bytes("b.log")];
    let mtimes = vec![1u64, 2];
    assert_eq!(latest_log_index(&names, &mtimes), None);
}
