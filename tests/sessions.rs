use dashboard::model::{ClientGroup, FocusedPanel, PoolStats, QueueResponse, SelectableItem, SessionGroup};
use dashboard::sessions::{
    client_aggregate_status, collect_all_sessions, contains_id, selectable_items_for, session_status,
    ActivityStatus,
};
use dashboard::state::{toggle_id, AppState, NavKey};

fn session(id: &str) -> SessionGroup {
    SessionGroup { session_id: id.to_string(), ..Default::default() }
}

fn client(id: &str, sessions: &[&str]) -> ClientGroup {
    ClientGroup {
        client_id: id.to_string(),
        sessions: sessions.iter().map(|s| session(s)).collect(),
        ..Default::default()
    }
}

fn hierarchical() -> QueueResponse {
    QueueResponse {
        clients: vec![client("c1", &["a", "b", "c"]), client("c2", &["d", "e"])],
        orphan_sessions: vec![session("o")],
        sessions: vec![session("flat")],
        ..Default::default()
    }
}

fn ids(items: &[SelectableItem]) -> Vec<String> {
    items
        .iter()
        .map(|i| match i {
            SelectableItem::Client(c) => format!("C:{}", c),
            SelectableItem::Session(s) => format!("S:{}", s),
        })
        .collect()
}

#[test]
fn selection_list_with_one_client_expanded() {
    let mut state = AppState::default();
    state.client_expanded.push("c1".to_string());
    let items = state.build_selectable_items(&hierarchical());
    assert_eq!(items.len(), 6);
    assert_eq!(ids(&items), vec!["C:c1", "S:a", "S:b", "S:c", "C:c2", "S:o"]);
}

#[test]
fn selection_list_collapsed_and_flat() {
    let state = AppState::default();
    let items = state.build_selectable_items(&hierarchical());
    assert_eq!(ids(&items), vec!["C:c1", "C:c2", "S:o"]);
    let flat = QueueResponse { sessions: vec![session("x"), session("y")], ..Default::default() };
    assert_eq!(ids(&state.build_selectable_items(&flat)), vec!["S:x", "S:y"]);
    assert!(state.build_selectable_items(&QueueResponse::default()).is_empty());
}

#[test]
fn orphans_alone_make_the_list_hierarchical() {
    let q = QueueResponse {
        orphan_sessions: vec![session("o1")],
        sessions: vec![session("flat")],
        ..Default::default()
    };
    let expanded: Vec<String> = Vec::new();
    assert_eq!(ids(&selectable_items_for(&q, &expanded)), vec!["S:o1"]);
}

#[test]
fn all_sessions_agree_with_fully_expanded_list() {
    let q = hierarchical();
    let all: Vec<String> = collect_all_sessions(&q).iter().map(|s| s.session_id.clone()).collect();
    assert_eq!(all, vec!["a", "b", "c", "d", "e", "o"]);
    let expanded = vec!["c1".to_string(), "c2".to_string()];
    let sessions_in_list: Vec<String> = selectable_items_for(&q, &expanded)
        .into_iter()
        .filter_map(|i| match i {
            SelectableItem::Session(s) => Some(s),
            SelectableItem::Client(_) => None,
        })
        .collect();
    assert_eq!(sessions_in_list, all);
    let flat = QueueResponse { sessions: vec![session("x")], ..Default::default() };
    assert_eq!(collect_all_sessions(&flat).len(), 1);
}

#[test]
fn resolve_selected_item() {
    let mut state = AppState::default();
    state.client_expanded.push("c2".to_string());
    state.session_selected = 2;
    assert_eq!(state.resolve_selected(&hierarchical()), Some(SelectableItem::Session("d".to_string())));
    state.session_selected = 5;
    assert_eq!(state.resolve_selected(&hierarchical()), None);
}

#[test]
fn statuses_by_priority() {
    let mut s = session("s");
    assert_eq!(session_status(&s), ActivityStatus::Idle);
    s.failed_requests = 1;
    assert_eq!(session_status(&s), ActivityStatus::Failed);
    s.pending_requests = 1;
    assert_eq!(session_status(&s), ActivityStatus::Pending);
    s.in_flight_requests = 1;
    assert_eq!(session_status(&s), ActivityStatus::InFlight);
    assert_eq!(ActivityStatus::InFlight.label(), "IN-FLGT");
    assert_eq!(ActivityStatus::Idle.label(), "IDLE");

    let mut c = client("c", &["a", "b"]);
    assert_eq!(client_aggregate_status(&c), ActivityStatus::Idle);
    c.sessions[0].failed_requests = 2;
    c.sessions[1].pending_requests = 1;
    assert_eq!(client_aggregate_status(&c), ActivityStatus::Pending);
    c.sessions[0].in_flight_requests = 1;
    assert_eq!(client_aggregate_status(&c), ActivityStatus::InFlight);
}

#[test]
fn toggling_ids() {
    let mut ids = vec!["a".to_string(), "b".to_string(), "a".to_string()];
    assert!(contains_id(&ids, &"a".to_string()));
    toggle_id(&mut ids, &"a".to_string());
    assert_eq!(ids, vec!["b".to_string()]);
    toggle_id(&mut ids, &"c".to_string());
    assert_eq!(ids, vec!["b".to_string(), "c".to_string()]);
    assert!(!contains_id(&ids, &"a".to_string()));
}

#[test]
fn keys_move_focus_cursor_and_expansion() {
    let pools = vec![
        PoolStats { model: "m1".to_string(), backends: vec![] },
        PoolStats { model: "m2".to_string(), backends: vec![] },
    ];
    let mut state = AppState::default();
    let items = state.build_selectable_items(&hierarchical());
    assert!(!state.handle_key(NavKey::Down, &pools, &items));
    assert!(!state.handle_key(NavKey::Down, &pools, &items));
    assert_eq!(state.backend_selected, 1);
    assert!(!state.handle_key(NavKey::Toggle, &pools, &items));
    assert_eq!(state.backend_expanded, vec!["m2".to_string()]);
    assert!(!state.handle_key(NavKey::SwitchPanel, &pools, &items));
    assert_eq!(state.focused_panel, FocusedPanel::Sessions);
    assert!(!state.handle_key(NavKey::Toggle, &pools, &items));
    assert_eq!(state.client_expanded, vec!["c1".to_string()]);
    let items = state.build_selectable_items(&hierarchical());
    assert!(!state.handle_key(NavKey::Down, &pools, &items));
    assert!(!state.handle_key(NavKey::Toggle, &pools, &items));
    assert_eq!(state.session_expanded, vec!["a".to_string()]);
    assert!(!state.handle_key(NavKey::Up, &pools, &items));
    assert!(!state.handle_key(NavKey::Up, &pools, &items));
    assert_eq!(state.session_selected, 0);
    assert!(state.handle_key(NavKey::Quit, &pools, &items));
}

#[test]
fn clamping_selection() {
    let mut state = AppState::default();
    state.backend_selected = 7;
    state.session_selected = 9;
    state.clamp_selection(3, 0);
    assert_eq!(state.backend_selected, 2);
    assert_eq!(state.session_selected, 9);
    state.clamp_selection(0, 4);
    assert_eq!(state.session_selected, 3);
}
