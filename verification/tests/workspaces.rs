use dnote::workspaces::{parse_change, WorkspaceChange, WorkspaceState};

#[test]
fn create_adds_and_reports_newness() {
    let mut ws = WorkspaceState::new();
    assert!(ws.update(WorkspaceChange::Create(3)));
    assert!(!ws.update(WorkspaceChange::Create(3)));
    assert_eq!(ws.workspaces, vec![3]);
}

#[test]
fn destroy_removes_and_reports_presence() {
    let mut ws = WorkspaceState::new();
    ws.update(WorkspaceChange::Create(1));
    ws.update(WorkspaceChange::Create(2));
    assert!(ws.update(WorkspaceChange::Destroy(1)));
    assert!(!ws.update(WorkspaceChange::Destroy(1)));
    assert_eq!(ws.workspaces, vec![2]);
}

#[test]
fn focus_sets_active_and_adopts_preexisting_workspaces() {
    let mut ws = WorkspaceState::new();
    // Focusing a workspace the tracker has not seen adopts it and
    // reports that it was not yet known.
    assert!(!ws.update(WorkspaceChange::Focus(7)));
    assert_eq!(ws.active_workspace, 7);
    assert_eq!(ws.workspaces, vec![7]);
    // Focusing a known workspace reports that it was known.
    assert!(ws.update(WorkspaceChange::Focus(7)));
    assert_eq!(ws.workspaces, vec![7]);
}

#[test]
fn the_id_vector_stays_sorted() {
    let mut ws = WorkspaceState::new();
    ws.update(WorkspaceChange::Create(5));
    ws.update(WorkspaceChange::Create(1));
    ws.update(WorkspaceChange::Create(3));
    assert_eq!(ws.workspaces, vec![1, 3, 5]);
}

#[test]
fn event_names_map_to_changes() {
    assert!(matches!(
        parse_change("workspace", 4),
        Some(WorkspaceChange::Focus(4))
    ));
    assert!(matches!(
        parse_change("createworkspace", 4),
        Some(WorkspaceChange::Create(4))
    ));
    assert!(matches!(
        parse_change("destroyworkspace", 4),
        Some(WorkspaceChange::Destroy(4))
    ));
    assert!(parse_change("openwindow", 4).is_none());
}
