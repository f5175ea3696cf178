use tmux_debug_mcp::panes::{PaneManager, PaneState, PaneStatus};

#[test]
fn test_pane_status_as_str() {
    assert_eq!(PaneStatus::Running.as_str(), "running");
    assert_eq!(PaneStatus::Exited.as_str(), "exited");
}

#[test]
fn test_pane_status_display() {
    assert_eq!(format!("{}", PaneStatus::Running.as_str()), "running");
    assert_eq!(format!("{}", PaneStatus::Exited.as_str()), "exited");
}

#[test]
fn test_pane_status_equality() {
    assert_eq!(PaneStatus::Running, PaneStatus::Running);
    assert_eq!(PaneStatus::Exited, PaneStatus::Exited);
    assert_ne!(PaneStatus::Running, PaneStatus::Exited);
}

#[test]
fn test_pane_state_new() {
    let state = PaneState::new("debug-1".to_string(), "server".to_string(), "cargo run".to_string());

    assert_eq!(state.id, "debug-1");
    assert_eq!(state.name, "server");
    assert_eq!(state.command, "cargo run");
    assert_eq!(state.status, PaneStatus::Running);
}

#[test]
fn test_pane_state_initial_status_is_running() {
    let state = PaneState::new("debug-1".to_string(), "test".to_string(), "echo hello".to_string());

    assert!(state.is_running());
    assert!(!state.is_exited());
}

#[test]
fn test_pane_state_set_status() {
    let mut state = PaneState::new("debug-1".to_string(), "test".to_string(), "echo hello".to_string());

    assert!(state.is_running());

    state.set_status(PaneStatus::Exited);
    assert!(state.is_exited());
    assert!(!state.is_running());
}

#[test]
fn test_pane_state_status_transitions() {
    let mut state = PaneState::new("debug-1".to_string(), "test".to_string(), "echo hello".to_string());

    assert_eq!(state.status, PaneStatus::Running);

    state.set_status(PaneStatus::Exited);
    assert_eq!(state.status, PaneStatus::Exited);

    // A pane can come back to running (e.g. a restarted process).
    state.set_status(PaneStatus::Running);
    assert_eq!(state.status, PaneStatus::Running);
}

#[test]
fn test_pane_state_clone() {
    let state = PaneState::new("debug-1".to_string(), "server".to_string(), "cargo run".to_string());

    let cloned = state.clone();
    assert_eq!(state, cloned);
}

#[test]
fn test_manager_generate_id_format() {
    let mut manager = PaneManager::new();

    let id1 = manager.generate_id();
    assert!(id1.starts_with("debug-"));
}

#[test]
fn test_manager_generate_id_sequential() {
    let mut manager = PaneManager::new();

    let id1 = manager.generate_id();
    let id2 = manager.generate_id();
    let id3 = manager.generate_id();

    assert_eq!(id1, "debug-1");
    assert_eq!(id2, "debug-2");
    assert_eq!(id3, "debug-3");
}

#[test]
fn test_manager_generate_id_unique() {
    let mut manager = PaneManager::new();
    let mut ids = std::collections::HashSet::new();

    for _ in 0..100 {
        let id = manager.generate_id();
        assert!(ids.insert(id), "Generated duplicate ID");
    }
}

#[test]
fn test_manager_create_pane_without_name() {
    let mut manager = PaneManager::new();

    let id = manager.create_pane("cargo run", None);

    assert_eq!(id, "debug-1");
    let pane = manager.get(&id).unwrap();
    assert_eq!(pane.name, "debug-1");
    assert_eq!(pane.command, "cargo run");
}

#[test]
fn test_manager_create_pane_with_name() {
    let mut manager = PaneManager::new();

    let id = manager.create_pane("cargo run", Some("server"));

    assert_eq!(id, "debug-1");
    let pane = manager.get(&id).unwrap();
    assert_eq!(pane.name, "server");
    assert_eq!(pane.command, "cargo run");
}

#[test]
fn test_manager_create_multiple_panes() {
    let mut manager = PaneManager::new();

    let id1 = manager.create_pane("cargo run", Some("server"));
    let id2 = manager.create_pane("bash", Some("client"));
    let id3 = manager.create_pane("tail -f log", None);

    assert_eq!(manager.len(), 3);

    let pane1 = manager.get(&id1).unwrap();
    let pane2 = manager.get(&id2).unwrap();
    let pane3 = manager.get(&id3).unwrap();

    assert_eq!(pane1.name, "server");
    assert_eq!(pane2.name, "client");
    assert_eq!(pane3.name, "debug-3");
}

#[test]
fn test_manager_get_existing_pane() {
    let mut manager = PaneManager::new();
    let id = manager.create_pane("cargo run", Some("server"));

    let pane = manager.get(&id);
    assert!(pane.is_some());
    assert_eq!(pane.unwrap().name, "server");
}

#[test]
fn test_manager_get_nonexistent_pane() {
    let manager = PaneManager::new();

    let pane = manager.get("debug-999");
    assert!(pane.is_none());
}

#[test]
fn test_manager_get_mut() {
    let mut manager = PaneManager::new();
    let id = manager.create_pane("cargo run", Some("server"));

    let pane = manager.get_mut(&id).unwrap();
    pane.set_status(PaneStatus::Exited);

    assert!(manager.get(&id).unwrap().is_exited());
}

#[test]
fn test_manager_contains() {
    let mut manager = PaneManager::new();
    let id = manager.create_pane("cargo run", None);

    assert!(manager.contains(&id));
    assert!(!manager.contains("nonexistent"));
}

#[test]
fn test_manager_remove_existing_pane() {
    let mut manager = PaneManager::new();
    let id = manager.create_pane("cargo run", Some("server"));

    assert!(manager.contains(&id));

    let removed = manager.remove(&id);
    assert!(removed.is_some());
    assert_eq!(removed.unwrap().name, "server");

    assert!(!manager.contains(&id));
}

#[test]
fn test_manager_remove_nonexistent_pane() {
    let mut manager = PaneManager::new();

    let removed = manager.remove("debug-999");
    assert!(removed.is_none());
}

#[test]
fn test_manager_remove_does_not_affect_other_panes() {
    let mut manager = PaneManager::new();
    let id1 = manager.create_pane("cargo run", Some("server"));
    let id2 = manager.create_pane("bash", Some("client"));

    manager.remove(&id1);

    assert!(!manager.contains(&id1));
    assert!(manager.contains(&id2));
    assert_eq!(manager.len(), 1);
}

#[test]
fn test_manager_update_status_existing() {
    let mut manager = PaneManager::new();
    let id = manager.create_pane("cargo run", None);

    assert!(manager.get(&id).unwrap().is_running());

    let result = manager.update_status(&id, PaneStatus::Exited);
    assert!(result);
    assert!(manager.get(&id).unwrap().is_exited());
}

#[test]
fn test_manager_update_status_nonexistent() {
    let mut manager = PaneManager::new();

    let result = manager.update_status("debug-999", PaneStatus::Exited);
    assert!(!result);
}

#[test]
fn test_manager_iter() {
    let mut manager = PaneManager::new();
    manager.create_pane("cargo run", Some("server"));
    manager.create_pane("bash", Some("client"));

    let panes: Vec<&PaneState> = manager.iter().collect();
    assert_eq!(panes.len(), 2);
}

#[test]
fn test_manager_pane_ids() {
    let mut manager = PaneManager::new();
    let id1 = manager.create_pane("cargo run", None);
    let id2 = manager.create_pane("bash", None);

    let ids = manager.pane_ids();
    assert_eq!(ids.len(), 2);
    assert!(ids.contains(&id1));
    assert!(ids.contains(&id2));
}

#[test]
fn test_manager_len() {
    let mut manager = PaneManager::new();
    assert_eq!(manager.len(), 0);

    manager.create_pane("cargo run", None);
    assert_eq!(manager.len(), 1);

    manager.create_pane("bash", None);
    assert_eq!(manager.len(), 2);
}

#[test]
fn test_manager_is_empty() {
    let mut manager = PaneManager::new();
    assert!(manager.is_empty());

    let id = manager.create_pane("cargo run", None);
    assert!(!manager.is_empty());

    manager.remove(&id);
    assert!(manager.is_empty());
}

#[test]
fn test_full_pane_lifecycle() {
    let mut manager = PaneManager::new();

    let id = manager.create_pane("RUST_LOG=debug cargo run", Some("server"));
    assert_eq!(manager.len(), 1);

    let pane = manager.get(&id).unwrap();
    assert!(pane.is_running());
    assert_eq!(pane.command, "RUST_LOG=debug cargo run");

    manager.update_status(&id, PaneStatus::Exited);
    assert!(manager.get(&id).unwrap().is_exited());

    assert!(manager.contains(&id));

    let removed = manager.remove(&id);
    assert!(removed.is_some());
    assert!(manager.is_empty());
}

#[test]
fn test_multiple_panes_independent_status() {
    let mut manager = PaneManager::new();

    let id1 = manager.create_pane("server", Some("server"));
    let id2 = manager.create_pane("client", Some("client"));

    assert!(manager.get(&id1).unwrap().is_running());
    assert!(manager.get(&id2).unwrap().is_running());

    manager.update_status(&id2, PaneStatus::Exited);

    assert!(manager.get(&id1).unwrap().is_running());
    assert!(manager.get(&id2).unwrap().is_exited());
}

#[test]
fn test_manager_default() {
    let manager = PaneManager::default();
    assert!(manager.is_empty());
}

#[test]
fn ids_keep_counting_after_removals() {
    let mut manager = PaneManager::new();
    let id1 = manager.create_pane("a", None);
    let id2 = manager.create_pane("b", None);
    manager.remove(&id1);
    manager.remove(&id2);
    let id3 = manager.create_pane("c", None);
    assert_eq!(id3, "debug-3");
    assert_eq!(manager.len(), 1);
}

#[test]
fn removing_absent_id_leaves_others() {
    let mut manager = PaneManager::new();
    let id = manager.create_pane("bash", Some("t"));
    assert!(manager.remove("debug-42").is_none());
    let pane = manager.get(&id).unwrap();
    assert_eq!(pane.name, "t");
    assert_eq!(pane.command, "bash");
    assert!(pane.is_running());
}

#[test]
fn exited_pane_stays_until_removed() {
    let mut manager = PaneManager::new();
    let id = manager.create_pane("make", None);
    assert!(manager.update_status(&id, PaneStatus::Exited));
    assert_eq!(manager.pane_ids(), vec![id.clone()]);
    assert_eq!(manager.get(&id).unwrap().status, PaneStatus::Exited);
    manager.remove(&id);
    assert!(manager.pane_ids().is_empty());
}

#[test]
fn ids_pass_ten() {
    let mut manager = PaneManager::new();
    let mut last = String::new();
    for _ in 0..12 {
        last = manager.generate_id();
    }
    assert_eq!(last, "debug-12");
}
