use std::hash::{Hash, Hasher};

use openwork::workspace::{
    migrate_workspace_state, stable_workspace_id, stable_workspace_id_for_remote, starter_workspace,
    state_after_load, WorkspaceInfo, WorkspaceState, WorkspaceType, WORKSPACE_STATE_VERSION,
};

fn expected_id(key: &str) -> String {
    let mut hasher = std::collections::hash_map::DefaultHasher::new();
    key.hash(&mut hasher);
    format!("ws-{:x}", hasher.finish())
}

fn record(path: &str) -> WorkspaceInfo {
    WorkspaceInfo {
        id: stable_workspace_id(path),
        name: "w".to_string(),
        path: path.to_string(),
        preset: "starter".to_string(),
        workspace_type: WorkspaceType::Local,
        base_url: None,
        directory: None,
        display_name: None,
    }
}

#[test]
fn workspace_id_is_deterministic() {
    let a = stable_workspace_id("/home/u/project");
    let b = stable_workspace_id("/home/u/project");
    assert_eq!(a, b);
    assert_eq!(a, expected_id("/home/u/project"));
    assert!(a.starts_with("ws-"));
    assert_ne!(a, stable_workspace_id("/home/u/other"));
}

#[test]
fn remote_id_uses_trimmed_directory() {
    assert_eq!(
        stable_workspace_id_for_remote("https://h", Some("  sub  ")),
        expected_id("remote::https://h::sub")
    );
    assert_eq!(stable_workspace_id_for_remote("https://h", Some("   ")), expected_id("remote::https://h"));
    assert_eq!(stable_workspace_id_for_remote("https://h", None), expected_id("remote::https://h"));
}

#[test]
fn starter_workspace_record() {
    let w = starter_workspace("/data/workspaces/starter");
    assert_eq!(w.id, stable_workspace_id("/data/workspaces/starter"));
    assert_eq!(w.name, "Starter");
    assert_eq!(w.preset, "starter");
    assert_eq!(w.path, "/data/workspaces/starter");
    assert_eq!(w.workspace_type, WorkspaceType::Local);
    assert!(w.base_url.is_none() && w.directory.is_none() && w.display_name.is_none());
}

#[test]
fn stale_state_is_migrated_with_records_kept() {
    let old = WorkspaceState { version: WORKSPACE_STATE_VERSION - 1, workspaces: vec![record("/a"), record("/b")] };
    let s = migrate_workspace_state(old);
    assert_eq!(s.version, WORKSPACE_STATE_VERSION);
    assert_eq!(s.workspaces.len(), 2);
    assert_eq!(s.workspaces[0].path, "/a");
    assert_eq!(s.workspaces[1].id, stable_workspace_id("/b"));
}

#[test]
fn newer_state_keeps_its_version() {
    let s = migrate_workspace_state(WorkspaceState { version: WORKSPACE_STATE_VERSION + 5, workspaces: Vec::new() });
    assert_eq!(s.version, WORKSPACE_STATE_VERSION + 5);
}

#[test]
fn missing_state_loads_as_fresh() {
    let s = state_after_load(None);
    assert_eq!(s.version, WORKSPACE_STATE_VERSION);
    assert!(s.workspaces.is_empty());
    let d = WorkspaceState::default();
    assert_eq!(d.version, WORKSPACE_STATE_VERSION);
    let loaded = state_after_load(Some(WorkspaceState { version: 0, workspaces: vec![record("/c")] }));
    assert_eq!(loaded.version, WORKSPACE_STATE_VERSION);
    assert_eq!(loaded.workspaces[0].path, "/c");
}
