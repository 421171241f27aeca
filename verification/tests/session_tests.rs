use redpill::ids::Uuid;
use redpill::session::credentials::{auth_after_load, auth_after_store, CredentialError, CredentialManager, CredentialType};
use redpill::session::manager::{ManagerError, SessionManager};
use redpill::session::models::{
    AuthMethod, LocalSession, Session, SessionData, SessionGroup, SshSession,
};
use redpill::session::storage::SessionStorage;
use redpill::state::RedPillApp;
use redpill::ui::forms::{GroupForm, SessionForm};
use redpill::ui::tabs::TerminalTab;

fn create_session_manager() -> SessionManager {
    let storage = SessionStorage::with_path("/tmp/redpill-test/sessions.json".to_string());
    SessionManager::from_loaded(storage, SessionData::new())
}

fn create_test_ssh_session(name: &str, host: &str) -> SshSession {
    SshSession::new(name.to_string(), host.to_string(), "testuser".to_string())
}

fn create_test_ssh_session_in_group(name: &str, host: &str, group_id: Uuid) -> SshSession {
    let mut session = create_test_ssh_session(name, host);
    session.group_id = Some(group_id);
    session
}

fn create_test_local_session(name: &str) -> LocalSession {
    LocalSession::new(name.to_string())
}

fn create_test_group(name: &str) -> SessionGroup {
    SessionGroup::new(name.to_string())
}

fn create_test_group_with_color(name: &str, color: &str) -> SessionGroup {
    let mut group = SessionGroup::new(name.to_string());
    group.color = Some(color.to_string());
    group
}

fn create_test_nested_group(name: &str, parent_id: Uuid) -> SessionGroup {
    SessionGroup::new_nested(name.to_string(), parent_id)
}

struct TestData {
    prod_group_id: Uuid,
    prod_db_group_id: Uuid,
}

fn populate_test_data(manager: &mut SessionManager) -> TestData {
    let prod_id = manager.add_group(create_test_group_with_color("Production", "#f38ba8"));
    let staging_id = manager.add_group(create_test_group_with_color("Staging", "#f9e2af"));
    let dev_id = manager.add_group(create_test_group_with_color("Development", "#a6e3a1"));
    let prod_db_id = manager.add_group(create_test_nested_group("Databases", prod_id));
    manager.add_ssh_session(create_test_ssh_session_in_group("web-server-1", "10.0.1.1", prod_id));
    manager.add_ssh_session(create_test_ssh_session_in_group("web-server-2", "10.0.1.2", prod_id));
    manager.add_ssh_session(create_test_ssh_session_in_group("mysql-primary", "10.0.2.1", prod_db_id));
    manager.add_ssh_session(create_test_ssh_session_in_group("staging-web", "10.0.10.1", staging_id));
    manager.add_ssh_session(create_test_ssh_session_in_group("dev-server", "192.168.1.100", dev_id));
    manager.add_ssh_session(create_test_ssh_session("personal-server", "example.com"));
    manager.add_local_session(create_test_local_session("Local Terminal"));
    TestData { prod_group_id: prod_id, prod_db_group_id: prod_db_id }
}

#[test]
fn test_ssh_session_creation() {
    let session = SshSession::new(
        "Test Server".to_string(),
        "192.168.1.1".to_string(),
        "admin".to_string(),
    );
    assert_eq!(session.name, "Test Server");
    assert_eq!(session.port, 22);
    assert_eq!(session.address(), "192.168.1.1:22");
}

#[test]
fn test_session_data_operations() {
    let mut data = SessionData::new();
    let group = SessionGroup::new("Production".to_string());
    let group_id = group.id;
    data.groups.push(group);
    let mut session = SshSession::new(
        "web-server".to_string(),
        "10.0.0.1".to_string(),
        "root".to_string(),
    );
    session.group_id = Some(group_id);
    data.sessions.push(Session::Ssh(session));
    assert_eq!(data.sessions_in_group(group_id).len(), 1);
    assert_eq!(data.ungrouped_sessions().len(), 0);
}

#[test]
fn test_session_crud() {
    let mut manager = create_session_manager();
    let session = SshSession::new("Test".to_string(), "localhost".to_string(), "user".to_string());
    let id = manager.add_ssh_session(session);
    let retrieved = manager.get_session(id).unwrap();
    assert_eq!(retrieved.name(), "Test");
    let mut updated = SshSession::new("Updated".to_string(), "localhost".to_string(), "user".to_string());
    updated.id = id;
    manager.update_ssh_session(id, updated).unwrap();
    let retrieved = manager.get_session(id).unwrap();
    assert_eq!(retrieved.name(), "Updated");
    manager.delete_session(id).unwrap();
    assert!(manager.get_session(id).is_none());
}

#[test]
fn test_group_operations() {
    let mut manager = create_session_manager();
    let parent = SessionGroup::new("Parent".to_string());
    let parent_id = manager.add_group(parent);
    let child = SessionGroup::new_nested("Child".to_string(), parent_id);
    let child_id = manager.add_group(child);
    assert_eq!(manager.child_groups(parent_id).len(), 1);
    assert_eq!(manager.top_level_groups().len(), 1);
    assert!(manager.delete_group(parent_id).is_err());
    manager.delete_group(child_id).unwrap();
    manager.delete_group(parent_id).unwrap();
}

#[test]
fn test_mass_connect() {
    let mut manager = create_session_manager();
    let group = SessionGroup::new("Servers".to_string());
    let group_id = manager.add_group(group);
    for i in 0..3 {
        let mut session = SshSession::new(format!("Server{}", i), format!("10.0.0.{}", i), "admin".to_string());
        session.group_id = Some(group_id);
        manager.add_ssh_session(session);
    }
    let session_ids = manager.get_all_sessions_in_group_recursive(group_id);
    assert_eq!(session_ids.len(), 3);
}

#[test]
fn test_session_manager_initial_state() {
    let manager = create_session_manager();
    assert!(manager.all_sessions().is_empty());
    assert!(manager.all_groups().is_empty());
    assert!(!manager.is_dirty());
}

#[test]
fn test_session_manager_top_level_groups_empty() {
    let manager = create_session_manager();
    assert!(manager.top_level_groups().is_empty());
}

#[test]
fn test_session_manager_ungrouped_sessions_empty() {
    let manager = create_session_manager();
    assert!(manager.ungrouped_sessions().is_empty());
}

#[test]
fn test_add_ssh_session() {
    let mut manager = create_session_manager();
    let id = manager.add_ssh_session(create_test_ssh_session("Test Server", "192.168.1.1"));
    assert!(manager.get_session(id).is_some());
    assert_eq!(manager.all_sessions().len(), 1);
    assert!(manager.is_dirty());
}

#[test]
fn test_add_local_session() {
    let mut manager = create_session_manager();
    let id = manager.add_local_session(create_test_local_session("My Terminal"));
    assert!(manager.get_session(id).is_some());
    assert_eq!(manager.all_sessions().len(), 1);
}

#[test]
fn test_get_session_found() {
    let mut manager = create_session_manager();
    let id = manager.add_ssh_session(create_test_ssh_session("Test", "localhost"));
    let retrieved = manager.get_session(id);
    assert!(retrieved.is_some());
    assert_eq!(retrieved.unwrap().name(), "Test");
}

#[test]
fn test_get_session_not_found() {
    let manager = create_session_manager();
    let fake_id = uuid::Uuid::new_v4().as_u128();
    assert!(manager.get_session(fake_id).is_none());
}

#[test]
fn test_delete_session_success() {
    let mut manager = create_session_manager();
    let id = manager.add_ssh_session(create_test_ssh_session("Delete Me", "localhost"));
    assert!(manager.delete_session(id).is_ok());
    assert!(manager.get_session(id).is_none());
    assert_eq!(manager.all_sessions().len(), 0);
}

#[test]
fn test_delete_session_not_found() {
    let mut manager = create_session_manager();
    let fake_id = uuid::Uuid::new_v4().as_u128();
    assert!(manager.delete_session(fake_id).is_err());
}

#[test]
fn test_update_ssh_session() {
    let mut manager = create_session_manager();
    let id = manager.add_ssh_session(create_test_ssh_session("Original", "localhost"));
    let mut updated = create_test_ssh_session("Updated", "newhost");
    updated.id = id;
    assert!(manager.update_ssh_session(id, updated).is_ok());
    let retrieved = manager.get_session(id).unwrap();
    assert_eq!(retrieved.name(), "Updated");
}

#[test]
fn test_sessions_in_group() {
    let mut manager = create_session_manager();
    let group_id = manager.add_group(create_test_group("Test Group"));
    manager.add_ssh_session(create_test_ssh_session_in_group("Server 1", "10.0.0.1", group_id));
    manager.add_ssh_session(create_test_ssh_session_in_group("Server 2", "10.0.0.2", group_id));
    manager.add_ssh_session(create_test_ssh_session("Ungrouped", "10.0.0.3"));
    assert_eq!(manager.sessions_in_group(group_id).len(), 2);
}

#[test]
fn test_ungrouped_sessions() {
    let mut manager = create_session_manager();
    let group_id = manager.add_group(create_test_group("Test Group"));
    manager.add_ssh_session(create_test_ssh_session_in_group("Grouped", "10.0.0.1", group_id));
    manager.add_ssh_session(create_test_ssh_session("Ungrouped 1", "10.0.0.2"));
    manager.add_ssh_session(create_test_ssh_session("Ungrouped 2", "10.0.0.3"));
    assert_eq!(manager.ungrouped_sessions().len(), 2);
}

#[test]
fn test_add_group_top_level() {
    let mut manager = create_session_manager();
    let id = manager.add_group(create_test_group("Production"));
    assert!(manager.get_group(id).is_some());
    assert_eq!(manager.top_level_groups().len(), 1);
}

#[test]
fn test_add_group_nested() {
    let mut manager = create_session_manager();
    let parent_id = manager.add_group(create_test_group("Parent"));
    let child_id = manager.add_group(create_test_nested_group("Child", parent_id));
    assert!(manager.get_group(child_id).is_some());
    assert_eq!(manager.child_groups(parent_id).len(), 1);
}

#[test]
fn test_top_level_groups_populated() {
    let mut manager = create_session_manager();
    manager.add_group(create_test_group("Group 1"));
    manager.add_group(create_test_group("Group 2"));
    manager.add_group(create_test_group("Group 3"));
    assert_eq!(manager.top_level_groups().len(), 3);
}

#[test]
fn test_child_groups_empty() {
    let mut manager = create_session_manager();
    let group_id = manager.add_group(create_test_group("Parent"));
    assert!(manager.child_groups(group_id).is_empty());
}

#[test]
fn test_child_groups_populated() {
    let mut manager = create_session_manager();
    let parent_id = manager.add_group(create_test_group("Parent"));
    manager.add_group(create_test_nested_group("Child 1", parent_id));
    manager.add_group(create_test_nested_group("Child 2", parent_id));
    assert_eq!(manager.child_groups(parent_id).len(), 2);
}

#[test]
fn test_delete_group_empty() {
    let mut manager = create_session_manager();
    let id = manager.add_group(create_test_group("Empty Group"));
    assert!(manager.delete_group(id).is_ok());
    assert!(manager.get_group(id).is_none());
}

#[test]
fn test_delete_group_with_children_fails() {
    let mut manager = create_session_manager();
    let parent_id = manager.add_group(create_test_group("Parent"));
    manager.add_group(create_test_nested_group("Child", parent_id));
    assert!(manager.delete_group(parent_id).is_err());
}

#[test]
fn test_delete_group_with_sessions_fails() {
    let mut manager = create_session_manager();
    let group_id = manager.add_group(create_test_group("Group with Sessions"));
    manager.add_ssh_session(create_test_ssh_session_in_group("Server", "localhost", group_id));
    assert!(manager.delete_group(group_id).is_err());
}

#[test]
fn test_delete_group_recursive() {
    let mut manager = create_session_manager();
    let parent_id = manager.add_group(create_test_group("Parent"));
    let child_id = manager.add_group(create_test_nested_group("Child", parent_id));
    manager.add_ssh_session(create_test_ssh_session_in_group("Server", "localhost", child_id));
    assert!(manager.delete_group_recursive(parent_id).is_ok());
    assert!(manager.get_group(parent_id).is_none());
    assert!(manager.get_group(child_id).is_none());
    assert!(manager.all_sessions().is_empty());
}

#[test]
fn test_move_session_to_group() {
    let mut manager = create_session_manager();
    let group_id = manager.add_group(create_test_group("Target Group"));
    let session_id = manager.add_ssh_session(create_test_ssh_session("Server", "localhost"));
    assert!(manager.move_session_to_group(session_id, Some(group_id)).is_ok());
    let session = manager.get_session(session_id).unwrap();
    assert_eq!(session.group_id(), Some(group_id));
}

#[test]
fn test_move_session_to_ungrouped() {
    let mut manager = create_session_manager();
    let group_id = manager.add_group(create_test_group("Group"));
    let session_id = manager.add_ssh_session(create_test_ssh_session_in_group("Server", "localhost", group_id));
    assert!(manager.move_session_to_group(session_id, None).is_ok());
    let session = manager.get_session(session_id).unwrap();
    assert!(session.group_id().is_none());
}

#[test]
fn test_mass_connect_sessions_in_group() {
    let mut manager = create_session_manager();
    let group_id = manager.add_group(create_test_group("Servers"));
    for i in 0..5 {
        let session = create_test_ssh_session_in_group(&format!("Server {}", i), &format!("10.0.0.{}", i), group_id);
        manager.add_ssh_session(session);
    }
    let sessions = manager.get_all_sessions_in_group_recursive(group_id);
    assert_eq!(sessions.len(), 5);
}

#[test]
fn test_mass_connect_includes_nested_groups() {
    let mut manager = create_session_manager();
    let parent_id = manager.add_group(create_test_group("Parent"));
    let child_id = manager.add_group(create_test_nested_group("Child", parent_id));
    manager.add_ssh_session(create_test_ssh_session_in_group("Parent Server", "10.0.0.1", parent_id));
    manager.add_ssh_session(create_test_ssh_session_in_group("Child Server 1", "10.0.0.2", child_id));
    manager.add_ssh_session(create_test_ssh_session_in_group("Child Server 2", "10.0.0.3", child_id));
    let sessions = manager.get_all_sessions_in_group_recursive(parent_id);
    assert_eq!(sessions.len(), 3);
}

#[test]
fn test_mass_connect_empty_group() {
    let mut manager = create_session_manager();
    let group_id = manager.add_group(create_test_group("Empty"));
    let sessions = manager.get_all_sessions_in_group_recursive(group_id);
    assert!(sessions.is_empty());
}

#[test]
fn test_populated_session_manager() {
    let mut manager = create_session_manager();
    let data = populate_test_data(&mut manager);
    assert_eq!(manager.top_level_groups().len(), 3);
    assert_eq!(manager.child_groups(data.prod_group_id).len(), 1);
    assert_eq!(manager.sessions_in_group(data.prod_group_id).len(), 2);
    assert_eq!(manager.sessions_in_group(data.prod_db_group_id).len(), 1);
    assert_eq!(manager.ungrouped_sessions().len(), 2);
}

#[test]
fn test_group_hierarchy() {
    let mut manager = create_session_manager();
    let data = populate_test_data(&mut manager);
    let prod_db = manager.get_group(data.prod_db_group_id).unwrap();
    assert_eq!(prod_db.parent_id, Some(data.prod_group_id));
    let prod = manager.get_group(data.prod_group_id).unwrap();
    assert!(prod.parent_id.is_none());
}

#[test]
fn test_mass_connect_production() {
    let mut manager = create_session_manager();
    let data = populate_test_data(&mut manager);
    let sessions = manager.get_all_sessions_in_group_recursive(data.prod_group_id);
    assert_eq!(sessions.len(), 3);
}

// Further cases of the library.

#[test]
fn mass_connect_lists_own_sessions_before_nested_ones() {
    let mut manager = create_session_manager();
    let parent_id = manager.add_group(create_test_group("Parent"));
    let child_id = manager.add_group(create_test_nested_group("Child", parent_id));
    let c1 = manager.add_ssh_session(create_test_ssh_session_in_group("c1", "10.0.0.2", child_id));
    let p1 = manager.add_ssh_session(create_test_ssh_session_in_group("p1", "10.0.0.1", parent_id));
    let sessions = manager.get_all_sessions_in_group_recursive(parent_id);
    assert_eq!(sessions, vec![p1, c1]);
}

#[test]
fn move_group_rejects_self_parent() {
    let mut manager = create_session_manager();
    let a = manager.add_group(create_test_group("A"));
    match manager.move_group(a, Some(a)) {
        Err(ManagerError::InvalidOperation(m)) => assert_eq!(m, "Cannot make a group its own parent"),
        _ => panic!("expected an invalid operation"),
    }
    assert!(!manager.all_groups().is_empty());
}

#[test]
fn move_group_rejects_descendant_parent() {
    let mut manager = create_session_manager();
    let a = manager.add_group(create_test_group("A"));
    let b = manager.add_group(create_test_nested_group("B", a));
    let c = manager.add_group(create_test_nested_group("C", b));
    match manager.move_group(a, Some(c)) {
        Err(ManagerError::InvalidOperation(m)) => assert_eq!(m, "Cannot move a group to one of its descendants"),
        _ => panic!("expected an invalid operation"),
    }
    assert!(manager.get_group(a).unwrap().parent_id.is_none());
}

#[test]
fn move_group_to_missing_parent_fails() {
    let mut manager = create_session_manager();
    let a = manager.add_group(create_test_group("A"));
    let missing = uuid::Uuid::new_v4().as_u128();
    match manager.move_group(a, Some(missing)) {
        Err(ManagerError::GroupNotFound(x)) => assert_eq!(x, missing),
        _ => panic!("expected a missing group"),
    }
}

#[test]
fn move_group_reparents_and_back_to_top() {
    let mut manager = create_session_manager();
    let a = manager.add_group(create_test_group("A"));
    let b = manager.add_group(create_test_group("B"));
    assert!(manager.move_group(b, Some(a)).is_ok());
    assert_eq!(manager.get_group(b).unwrap().parent_id, Some(a));
    assert_eq!(manager.child_groups(a).len(), 1);
    assert!(manager.move_group(b, None).is_ok());
    assert_eq!(manager.top_level_groups().len(), 2);
    assert!(manager.is_dirty());
}

#[test]
fn move_missing_group_fails() {
    let mut manager = create_session_manager();
    let missing = uuid::Uuid::new_v4().as_u128();
    match manager.move_group(missing, None) {
        Err(ManagerError::GroupNotFound(x)) => assert_eq!(x, missing),
        _ => panic!("expected a missing group"),
    }
}

#[test]
fn delete_group_recursive_keeps_other_groups() {
    let mut manager = create_session_manager();
    let a = manager.add_group(create_test_group("A"));
    let b = manager.add_group(create_test_group("B"));
    manager.add_ssh_session(create_test_ssh_session_in_group("in b", "h", b));
    manager.add_ssh_session(create_test_ssh_session("loose", "h"));
    manager.delete_group_recursive(a).unwrap();
    assert!(manager.get_group(b).is_some());
    assert_eq!(manager.all_sessions().len(), 2);
}

#[test]
fn move_session_to_missing_group_fails() {
    let mut manager = create_session_manager();
    let s = manager.add_ssh_session(create_test_ssh_session("s", "h"));
    let missing = uuid::Uuid::new_v4().as_u128();
    match manager.move_session_to_group(s, Some(missing)) {
        Err(ManagerError::GroupNotFound(x)) => assert_eq!(x, missing),
        _ => panic!("expected a missing group"),
    }
}

#[test]
fn update_missing_session_fails() {
    let mut manager = create_session_manager();
    let missing = uuid::Uuid::new_v4().as_u128();
    match manager.update_ssh_session(missing, create_test_ssh_session("x", "h")) {
        Err(ManagerError::SessionNotFound(x)) => assert_eq!(x, missing),
        _ => panic!("expected a missing session"),
    }
}

#[test]
fn update_and_delete_missing_group_fail() {
    let mut manager = create_session_manager();
    let missing = uuid::Uuid::new_v4().as_u128();
    assert!(matches!(manager.update_group(missing, create_test_group("g")), Err(ManagerError::GroupNotFound(_))));
    assert!(matches!(manager.delete_group(missing), Err(ManagerError::GroupNotFound(_))));
}

#[test]
fn ssh_session_defaults_to_agent_auth() {
    let s = create_test_ssh_session("n", "h");
    assert!(matches!(s.auth, AuthMethod::Agent));
    assert_eq!(s.port, 22);
}

/// Saving writes the manager's data to its store; here the store is the value `saved`.
fn save(manager: &mut SessionManager) -> SessionData {
    let saved = manager.data().clone();
    manager.mark_saved();
    saved
}

#[test]
fn test_save_and_reload() {
    let mut manager = create_session_manager();
    let group_id = manager.add_group(create_test_group("Persistent Group"));
    let session_id = manager.add_ssh_session(create_test_ssh_session_in_group("Persistent Server", "localhost", group_id));
    let saved = save(&mut manager);
    assert!(!manager.is_dirty());
    let storage = SessionStorage::with_path("/tmp/redpill-test/sessions.json".to_string());
    let manager2 = SessionManager::from_loaded(storage, saved);
    assert!(manager2.get_group(group_id).is_some());
    assert!(manager2.get_session(session_id).is_some());
}

#[test]
fn test_reload_discards_changes() {
    let mut manager = create_session_manager();
    let id1 = manager.add_ssh_session(create_test_ssh_session("Original", "localhost"));
    let saved = save(&mut manager);
    let id2 = manager.add_ssh_session(create_test_ssh_session("Unsaved", "localhost"));
    assert!(manager.is_dirty());
    manager.reload_with(saved);
    assert!(manager.get_session(id1).is_some());
    assert!(manager.get_session(id2).is_none());
    assert!(!manager.is_dirty());
}

#[test]
fn credential_entry_names() {
    let id: Uuid = 0xffff_0000_0000_4000_8000_0000_0000_0001;
    assert_eq!(
        CredentialManager::entry_name(id, CredentialType::Password),
        "password:ffff0000-0000-4000-8000-000000000001"
    );
    assert_eq!(
        CredentialManager::entry_name(id, CredentialType::Passphrase),
        "passphrase:ffff0000-0000-4000-8000-000000000001"
    );
    let id2: Uuid = 0x0123_4567_89ab_cdef_0011_2233_4455_6677;
    assert_eq!(
        CredentialManager::entry_name(id2, CredentialType::Password),
        "password:01234567-89ab-cdef-0011-223344556677"
    );
}

#[test]
fn new_ids_are_version_4() {
    let id = SessionGroup::new("g".to_string()).id;
    assert_eq!((id >> 76) & 0xf, 4);
    assert_eq!((id >> 62) & 0x3, 2);
}

#[test]
fn app_delete_session_closes_its_tabs() {
    let mut app: RedPillApp<u8> = RedPillApp::new(create_session_manager());
    assert!(app.session_tree_visible);
    app.toggle_session_tree();
    assert!(!app.session_tree_visible);
    let id = app.session_manager.add_ssh_session(create_test_ssh_session("web", "10.0.0.1"));
    app.tabs.open(TerminalTab::new(1, Some(id), "web".to_string()));
    let other = app.tabs.open(TerminalTab::new(2, None, "Local".to_string()));
    assert!(app.delete_session(id).is_ok());
    assert_eq!(app.tabs.tabs().len(), 1);
    assert_eq!(app.tabs.tabs()[0].id, other);
    assert!(app.session_manager.get_session(id).is_none());
    let missing: Uuid = 0x1234;
    assert_eq!(
        app.delete_session(missing),
        Err(format!("Session not found: {}", uuid::Uuid::from_u128(missing).to_string()))
    );
}

#[test]
fn app_groups_and_mass_connect() {
    let mut app: RedPillApp<u8> = RedPillApp::new(create_session_manager());
    let parent = app.add_group("Prod".to_string(), None);
    let child = app.add_group("DB".to_string(), Some(parent));
    assert_eq!(app.session_manager.get_group(child).unwrap().parent_id, Some(parent));
    let a = app.session_manager.add_ssh_session(create_test_ssh_session_in_group("a", "h", parent));
    let b = app.session_manager.add_ssh_session(create_test_ssh_session_in_group("b", "h", child));
    assert_eq!(app.mass_connect_sessions(parent), vec![a, b]);
    assert_eq!(app.delete_group(parent, false), Err("Cannot delete group with children".to_string()));
    assert_eq!(
        app.delete_group(0x77, false),
        Err(format!("Group not found: {}", uuid::Uuid::from_u128(0x77).to_string()))
    );
    assert_eq!(app.delete_group(parent, true), Ok(()));
    assert!(app.session_manager.get_group(child).is_none());
    assert!(app.session_manager.get_session(b).is_none());
}

#[test]
fn app_saves_group_dialog() {
    let mut app: RedPillApp<u8> = RedPillApp::new(create_session_manager());
    let blank = GroupForm::new(None);
    assert_eq!(blank.window_title(), "New Group");
    assert_eq!(app.save_group(&blank), Err(vec!["Name is required".to_string()]));
    assert!(app.session_manager.all_groups().is_empty());
    let mut form = GroupForm::new(None);
    form.name = "Prod".to_string();
    form.color = Some("#f38ba8".to_string());
    let id = app.save_group(&form).unwrap();
    let g = app.session_manager.get_group(id).unwrap();
    assert_eq!(g.name, "Prod");
    assert_eq!(g.color.as_deref(), Some("#f38ba8"));
    let mut edit = GroupForm::edit(g);
    assert_eq!(edit.window_title(), "Edit Group");
    edit.name = "Production".to_string();
    assert_eq!(app.save_group(&edit), Ok(id));
    assert_eq!(app.session_manager.all_groups().len(), 1);
    assert_eq!(app.session_manager.get_group(id).unwrap().name, "Production");
}

#[test]
fn app_saves_session_dialog() {
    let mut app: RedPillApp<u8> = RedPillApp::new(create_session_manager());
    let mut form = SessionForm::new();
    assert_eq!(
        app.save_ssh_session(&form),
        Err(vec!["Name is required".to_string(), "Host is required".to_string(), "Username is required".to_string()])
    );
    form.name = " web ".to_string();
    form.host = "10.0.0.5".to_string();
    form.username = "admin".to_string();
    form.port = "2200".to_string();
    let id = app.save_ssh_session(&form).unwrap();
    match app.session_manager.get_session(id) {
        Some(Session::Ssh(s)) => {
            assert_eq!(s.name, "web");
            assert_eq!(s.port, 2200);
        },
        _ => panic!("expected the SSH session"),
    }
    let mut edit = match app.session_manager.get_session(id) {
        Some(Session::Ssh(s)) => SessionForm::edit(s),
        _ => panic!("expected the SSH session"),
    };
    edit.host = "10.0.0.6".to_string();
    assert_eq!(app.save_ssh_session(&edit), Ok(id));
    assert_eq!(app.session_manager.all_sessions().len(), 1);
    match app.session_manager.get_session(id) {
        Some(Session::Ssh(s)) => assert_eq!(s.host, "10.0.0.6"),
        _ => panic!("expected the SSH session"),
    }
}

#[test]
fn keychain_answers_decide_the_secret() {
    let pw = AuthMethod::Password { password: Some("s3cret".to_string()), use_keychain: true };
    assert!(matches!(auth_after_store(pw, Ok(())), AuthMethod::Password { password: None, use_keychain: true }));
    let pw = AuthMethod::Password { password: Some("s3cret".to_string()), use_keychain: true };
    assert!(matches!(auth_after_store(pw, Err(CredentialError::NotFound)),
        AuthMethod::Password { password: Some(p), use_keychain: true } if p == "s3cret"));
    let plain = AuthMethod::Password { password: Some("x".to_string()), use_keychain: false };
    assert!(matches!(auth_after_store(plain, Ok(())), AuthMethod::Password { password: Some(p), use_keychain: false } if p == "x"));
    let key = AuthMethod::PrivateKey { path: "~/.ssh/id".to_string(), passphrase: Some("pp".to_string()), use_keychain: true };
    assert!(matches!(auth_after_store(key, Ok(())),
        AuthMethod::PrivateKey { path, passphrase: None, use_keychain: true } if path == "~/.ssh/id"));
    let missing = AuthMethod::Password { password: None, use_keychain: true };
    assert!(matches!(auth_after_load(missing, Ok("got".to_string())),
        AuthMethod::Password { password: Some(p), use_keychain: true } if p == "got"));
    let missing = AuthMethod::PrivateKey { path: "k".to_string(), passphrase: None, use_keychain: true };
    assert!(matches!(auth_after_load(missing, Err(CredentialError::NotFound)),
        AuthMethod::PrivateKey { passphrase: None, .. }));
    let held = AuthMethod::Password { password: Some("mine".to_string()), use_keychain: true };
    assert!(matches!(auth_after_load(held, Ok("other".to_string())),
        AuthMethod::Password { password: Some(p), .. } if p == "mine"));
    assert!(matches!(auth_after_load(AuthMethod::Agent, Ok("x".to_string())), AuthMethod::Agent));
}

#[test]
fn mass_connect_takes_nested_sessions_once_and_no_others() {
    let mut manager = create_session_manager();
    let data = populate_test_data(&mut manager);
    let ids = manager.get_all_sessions_in_group_recursive(data.prod_group_id);
    let mut names: Vec<String> = ids
        .iter()
        .map(|id| manager.get_session(*id).unwrap().name().to_string())
        .collect();
    names.sort();
    assert_eq!(names, vec!["mysql-primary", "web-server-1", "web-server-2"]);
    let mut unique = ids.clone();
    unique.sort();
    unique.dedup();
    assert_eq!(unique.len(), ids.len());
    let below = manager.get_all_sessions_in_group_recursive(data.prod_db_group_id);
    assert_eq!(below.len(), 1);
}

#[test]
fn is_descendant_ends_on_cyclic_parent_links() {
    let a: Uuid = 1;
    let b: Uuid = 2;
    let c: Uuid = 3;
    let group = |id: Uuid, parent: Option<Uuid>| SessionGroup { id, name: format!("g{}", id), parent_id: parent, color: None };
    let data = SessionData { groups: vec![group(a, Some(b)), group(b, Some(a)), group(c, None)], sessions: vec![] };
    let storage = SessionStorage::with_path("/tmp/redpill-test/cyclic.json".to_string());
    let manager = SessionManager::from_loaded(storage, data);
    assert!(manager.is_descendant(a, b));
    assert!(manager.is_descendant(a, a));
    assert!(!manager.is_descendant(a, c));
    assert!(!manager.is_descendant(c, a));
}

#[test]
fn session_lists_partition_the_sessions() {
    let mut manager = create_session_manager();
    let data = populate_test_data(&mut manager);
    let sd = manager.data();
    let ungrouped = sd.ungrouped_sessions();
    for s in sd.sessions.iter() {
        let in_ungrouped = ungrouped.iter().filter(|u| u.id() == s.id()).count();
        match s.group_id() {
            None => assert_eq!(in_ungrouped, 1),
            Some(g) => {
                assert_eq!(in_ungrouped, 0);
                assert_eq!(sd.sessions_in_group(g).iter().filter(|u| u.id() == s.id()).count(), 1);
            }
        }
    }
    assert_eq!(sd.sessions_in_group(data.prod_group_id).len(), 2);
    assert_eq!(ungrouped.len(), 2);
}
