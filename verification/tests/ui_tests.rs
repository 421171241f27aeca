use redpill::config::{
    default_scrollback_lines, default_true, AgentPanelSettings, ColorScheme, KeyBindings,
    SessionTreeSettings, WindowState,
};
use redpill::doc::JsonValue;
use redpill::kubernetes::client::{ContainerStatusInfo, KubeNamespace, KubePod, PodStatusInfo};
use redpill::kubernetes::config::{KubeConfig, KubeConfigError};
use redpill::session::models::{AuthMethod, SshSession};
use redpill::sftp::browser::{directory_entries, format_permissions, EntryType, ListedItem, TransferProgress};
use redpill::ui::forms::{
    build_group, build_ssh_session, build_ssm_session, group_colors, parse_u16, validate_group_name,
    validate_session_form, validate_ssm_form, AuthType, SessionForm, SessionType,
};
use redpill::ui::dialogs::{DeleteConfirmDialog, DeleteTarget, QuitConfirmDialog};
use redpill::ui::panes::{SplitContainer, SplitOrientation};
use redpill::terminal::keys::{KeyModifiers, Keystroke};
use redpill::ui::search_bar::{SearchBar, SearchBarEvent};
use redpill::ui::session_tree::{namespace_key, K8sTreeState, K8sUpdate, SessionTreeState};
use redpill::ui::tabs::{connection_failed_banner, TabInfo, TabList, TerminalTab, TerminalTabs};

#[test]
fn test_parse_kubeconfig() {
    let yaml = r#"
apiVersion: v1
kind: Config
current-context: minikube
clusters:
- name: minikube
  cluster:
    server: https://192.168.49.2:8443
    certificate-authority: /home/user/.minikube/ca.crt
- name: production
  cluster:
    server: https://k8s.example.com:6443
    insecure-skip-tls-verify: true
contexts:
- name: minikube
  context:
    cluster: minikube
    user: minikube
    namespace: default
- name: production
  context:
    cluster: production
    user: admin
users:
- name: minikube
  user:
    client-certificate: /home/user/.minikube/profiles/minikube/client.crt
    client-key: /home/user/.minikube/profiles/minikube/client.key
"#;
    let config = KubeConfig::parse(yaml, "/test/config".to_string()).unwrap();
    assert_eq!(config.current_context, Some("minikube".to_string()));
    assert_eq!(config.contexts.len(), 2);
    assert_eq!(config.clusters.len(), 2);
    let ctx = config.current_context().unwrap();
    assert_eq!(ctx.name, "minikube");
    assert_eq!(ctx.cluster, "minikube");
    assert_eq!(ctx.namespace, Some("default".to_string()));
    let cluster = config.get_cluster("production").unwrap();
    assert!(cluster.insecure_skip_tls_verify);
}

#[test]
fn kubeconfig_text_that_is_no_yaml_is_a_parse_error() {
    match KubeConfig::parse("clusters: [unclosed", "p".to_string()) {
        Err(KubeConfigError::ParseError(msg)) => assert!(!msg.is_empty()),
        other => panic!("unexpected {:?}", other.map(|c| c.path)),
    }
    // An empty text is a document with nothing in it.
    let empty = KubeConfig::parse("{}", "p".to_string()).unwrap();
    assert!(empty.contexts.is_empty());
    assert_eq!(empty.path, "p");
}

#[test]
fn kubeconfig_without_lists() {
    let config = KubeConfig::from_document(&JsonValue::Object(vec![]), "p".to_string());
    assert!(config.current_context.is_none());
    assert!(config.contexts.is_empty());
    assert!(config.current_context().is_none());
    assert!(config.get_cluster("x").is_none());
}

#[test]
fn builtin_color_schemes() {
    let dark = ColorScheme::builtin("default").unwrap();
    assert_eq!(dark.name, "default");
    assert_eq!(dark.background, 0x1e1e2e);
    assert_eq!(ColorScheme::builtin("light").unwrap().background, 0xffffff);
    assert_eq!(ColorScheme::builtin("matrix").unwrap().foreground, 0x00ff00);
    assert_eq!(ColorScheme::builtin("red").unwrap().foreground, 0xff0000);
    assert!(ColorScheme::builtin("solarized").is_none());
    assert_eq!(ColorScheme::builtin_names(), &["default", "light", "matrix", "red"]);
    assert_eq!(ColorScheme::for_theme("nope").name, "default");
    assert_eq!(ColorScheme::for_theme("red"), ColorScheme::red());
}

#[test]
fn config_defaults() {
    let w = WindowState::default();
    assert_eq!(w.width, 1200);
    assert_eq!(w.height, 800);
    assert!(w.x.is_none() && !w.maximized);
    assert_eq!(SessionTreeSettings::default().width, 250);
    assert_eq!(AgentPanelSettings::default().width, 360);
    let k = KeyBindings::default();
    assert_eq!(k.new_tab, "ctrl+shift+t");
    assert_eq!(k.toggle_session_tree, "ctrl+b");
    assert_eq!(default_scrollback_lines(), 10000);
    assert!(default_true());
}

#[test]
fn ports_parse_like_std() {
    assert_eq!(parse_u16("22"), Some(22));
    assert_eq!(parse_u16("+8080"), Some(8080));
    assert_eq!(parse_u16("65535"), Some(65535));
    assert_eq!(parse_u16("65536"), None);
    assert_eq!(parse_u16(""), None);
    assert_eq!(parse_u16("+"), None);
    assert_eq!(parse_u16("2a"), None);
    assert_eq!(parse_u16(" 22"), None);
    for text in ["0", "1", "007", "99999", "123456789", "-1"] {
        assert_eq!(parse_u16(text), text.parse::<u16>().ok());
    }
}

#[test]
fn session_form_validation() {
    let f = SessionForm::new();
    let errors = validate_session_form(&f);
    assert_eq!(errors, vec!["Name is required", "Host is required", "Username is required"]);
    let mut f = SessionForm::new();
    f.name = "web".into();
    f.host = "h".into();
    f.username = "u".into();
    f.port = "x".into();
    f.auth_type = AuthType::PrivateKey;
    assert_eq!(validate_session_form(&f), vec!["Port must be a valid number (1-65535)", "Private key path is required"]);
    let mut f = SessionForm::new();
    f.session_type = SessionType::Ssm;
    f.name = "n".into();
    f.instance_id = "  x-1 ".into();
    assert_eq!(validate_session_form(&f), vec!["Instance ID must start with 'i-' (EC2) or 'mi-' (on-prem)"]);
    f.instance_id = " mi-1 ".into();
    assert!(validate_session_form(&f).is_empty());
    assert_eq!(validate_ssm_form("", ""), vec!["Name is required", "Instance ID is required"]);
    assert_eq!(validate_group_name("  "), vec!["Name is required"]);
    assert!(validate_group_name("g").is_empty());
}

#[test]
fn session_form_builds_and_roundtrips() {
    let mut s = SshSession::new("web".into(), "10.0.0.1".into(), "root".into());
    s.port = 2222;
    s.auth = AuthMethod::Password { password: Some("pw".into()), use_keychain: true };
    let f = SessionForm::edit(&s);
    assert_eq!(f.port, "2222");
    let built = build_ssh_session(&f);
    assert_eq!(built.id, s.id);
    assert_eq!(built.port, 2222);
    assert_eq!(built.name, "web");
    assert!(matches!(built.auth, AuthMethod::Password { password: Some(ref p), use_keychain: true } if p == "pw"));
    let mut f = SessionForm::new();
    f.name = " n ".into();
    f.port = "bad".into();
    f.auth_type = AuthType::PrivateKey;
    f.key_path = " ~/.ssh/id ".into();
    let b = build_ssh_session(&f);
    assert_eq!(b.name, "n");
    assert_eq!(b.port, 22);
    assert!(matches!(b.auth, AuthMethod::PrivateKey { ref path, passphrase: None, .. } if path == "~/.ssh/id"));
    let ssm = build_ssm_session(" n ", " i-1 ", "  ", " prof ", None, None, None);
    assert_eq!(ssm.instance_id, "i-1");
    assert!(ssm.region.is_none());
    assert_eq!(ssm.profile, Some("prof".to_string()));
    let g = build_group("G", Some(5), Some("#fff".into()), Some(9));
    assert_eq!(g.id, 9);
    assert_eq!(g.parent_id, Some(5));
    assert_eq!(group_colors().len(), 8);
}

#[test]
fn tab_list_keeps_active_on_a_tab() {
    let mut tabs: TabList<u8> = TabList::new();
    let a = tabs.open(TerminalTab::new(1, None, "a".into()));
    let b = tabs.open(TerminalTab::new(2, None, "b".into()));
    let c = tabs.open(TerminalTab::new(3, None, "c".into()));
    assert_eq!(tabs.active_index(), Some(2));
    tabs.close_tab(c);
    assert_eq!(tabs.active_index(), Some(1));
    tabs.set_active_tab_by_id(b);
    tabs.close_tab(a);
    assert_eq!(tabs.active_index(), Some(0));
    assert_eq!(tabs.active_tab().unwrap().id, b);
    tabs.set_active_tab(7);
    assert_eq!(tabs.active_index(), Some(0));
    tabs.close_tab(b);
    assert_eq!(tabs.active_index(), None);
    assert!(tabs.get_tab(b).is_none());
}

fn info(id: u128) -> TabInfo {
    TabInfo { id, title: format!("t{}", id), dirty: false }
}

#[test]
fn tab_bar_bulk_closing() {
    let mut bar = TerminalTabs::new(vec![info(1), info(2), info(3), info(4)], Some(4));
    assert_eq!(bar.close_tabs_to_right(1), vec![3, 4]);
    assert_eq!(bar.close_tabs_to_left(1), vec![1]);
    let mut bar = TerminalTabs::new(vec![info(1), info(2), info(3)], Some(1));
    assert_eq!(bar.close_other_tabs(2), vec![1, 3]);
    assert_eq!(bar.close_all_tabs(), vec![2]);
    let mut bar = TerminalTabs::new(vec![info(1), info(2)], Some(1));
    bar.remove_tab(1);
    bar.show_context_menu(2, 0);
    assert_eq!(bar.context_menu_state().unwrap().tab_count, 1);
    bar.dismiss_context_menu();
    assert!(bar.context_menu_state().is_none());
    assert!(connection_failed_banner("refused").contains("Connection Failed"));
}

#[test]
fn split_panes() {
    let mut c = SplitContainer::new(10u8);
    c.split_vertical(11);
    c.split_horizontal(12);
    c.split_horizontal(13);
    c.split_horizontal(14);
    assert_eq!(c.pane_count(), 4);
    assert_eq!(c.active_pane(), 3);
    assert_eq!(c.active_terminal(), Some(&13));
    c.focus_next_pane();
    assert_eq!(c.active_pane(), 0);
    c.focus_prev_pane();
    assert_eq!(c.active_pane(), 3);
    assert!(c.close_active_pane());
    assert_eq!(c.active_pane(), 2);
    c.set_active_pane(0);
    assert!(c.close_active_pane());
    assert!(c.close_active_pane());
    assert!(!c.close_active_pane());
    assert_eq!(c.pane_count(), 1);
    let _ = SplitOrientation::Vertical;
}

#[test]
fn search_navigation() {
    let mut s = SearchBar::new();
    s.find_next();
    assert_eq!(s.current_match_index(), 0);
    s.set_match_count(3);
    s.find_prev();
    assert_eq!(s.current_match_index(), 2);
    s.find_next();
    assert_eq!(s.current_match_index(), 0);
    s.set_query("abc".to_string());
    assert_eq!(s.query(), "abc");
    s.toggle_case_sensitive();
    assert!(s.case_sensitive());
    s.set_match_count(0);
    assert_eq!(s.current_match_index(), 0);
}

#[test]
fn tree_expansion() {
    let mut t = SessionTreeState::new();
    assert!(!t.is_expanded(7));
    t.toggle_expanded(7);
    assert!(t.is_expanded(7));
    t.toggle_expanded(7);
    assert!(!t.is_expanded(7));
    t.expand(8);
    t.expand(8);
    assert!(t.is_expanded(8));
}

#[test]
fn permissions_and_transfers() {
    assert_eq!(format_permissions(0o755), "rwxr-xr-x");
    assert_eq!(format_permissions(0o640), "rw-r-----");
    assert_eq!(format_permissions(0), "---------");
    let p = TransferProgress::new("f".into(), 10);
    assert!(!p.complete);
    assert_eq!(p.transferred.load(std::sync::atomic::Ordering::Relaxed), 0);
}

#[test]
fn pods_and_namespaces() {
    let ns = KubeNamespace::from_parts(Some("default".into()), None);
    assert_eq!(ns.status, "Unknown");
    let pod = KubePod::from_parts(Some("web".into()), None, None);
    assert_eq!(pod.ready, "0/0");
    let status = PodStatusInfo {
        phase: Some("Running".into()),
        container_statuses: Some(vec![
            ContainerStatusInfo { name: "app".into(), ready: true },
            ContainerStatusInfo { name: "sidecar".into(), ready: false },
        ]),
    };
    let pod = KubePod::from_parts(Some("web".into()), Some("prod".into()), Some(status));
    assert_eq!(pod.status, "Running");
    assert_eq!(pod.ready, "1/2");
    assert_eq!(pod.containers, vec!["app".to_string(), "sidecar".to_string()]);
}

fn listed(name: &str, is_dir: bool, is_symlink: bool, is_file: bool, mode: Option<u32>) -> ListedItem {
    ListedItem {
        name: name.to_string(),
        is_dir,
        is_symlink,
        is_file,
        size: Some(42),
        mtime: Some(1_700_000_000),
        permissions: mode,
    }
}

#[test]
fn test_directory_entries_order() {
    let items = vec![
        listed(".", true, false, false, Some(0o755)),
        listed("b.txt", false, false, true, Some(0o644)),
        listed("z", true, false, false, Some(0o755)),
        listed("..", true, false, false, Some(0o755)),
        listed("c", false, true, false, None),
        listed("a", true, false, false, Some(0o700)),
        listed("B", false, false, false, None),
    ];
    let entries = directory_entries(&items);
    let names: Vec<&str> = entries.iter().map(|e| e.name.as_str()).collect();
    assert_eq!(names, vec!["a", "z", "B", "b.txt", "c"]);
    assert_eq!(entries[0].entry_type, EntryType::Directory);
    assert_eq!(entries[0].permissions, "rwx------");
    assert_eq!(entries[2].entry_type, EntryType::Unknown);
    assert_eq!(entries[3].entry_type, EntryType::File);
    assert_eq!(entries[3].permissions, "rw-r--r--");
    assert_eq!(entries[3].size, 42);
    assert_eq!(entries[3].modified, 1_700_000_000);
    assert_eq!(entries[4].entry_type, EntryType::Symlink);
    assert_eq!(entries[4].permissions, "---------");
}

#[test]
fn test_directory_entries_missing_attributes() {
    let items = vec![ListedItem {
        name: "x".to_string(),
        is_dir: false,
        is_symlink: false,
        is_file: true,
        size: None,
        mtime: None,
        permissions: None,
    }];
    let entries = directory_entries(&items);
    assert_eq!(entries.len(), 1);
    assert_eq!(entries[0].size, 0);
    assert_eq!(entries[0].modified, 0);
    assert!(directory_entries(&Vec::new()).is_empty());
}

#[test]
fn k8s_tree_loads_each_context_once() {
    let mut t = K8sTreeState::new();
    assert!(!t.is_expanded());
    t.toggle_expanded();
    assert!(t.is_expanded());
    assert!(t.toggle_context("prod".to_string()));
    assert!(t.is_context_expanded("prod"));
    assert!(!t.toggle_context("prod".to_string()));
    assert!(!t.is_context_expanded("prod"));
    assert!(!t.toggle_context("prod".to_string()));
    assert!(t.namespaces("prod").is_none());
    let ns = KubeNamespace::from_parts(Some("default".to_string()), Some("Active".to_string()));
    t.handle_update(K8sUpdate::Namespaces { context: "prod".to_string(), namespaces: vec![ns] });
    assert_eq!(t.namespaces("prod").map(|v| v.len()), Some(1));
    t.toggle_context("prod".to_string());
    assert!(!t.toggle_context("prod".to_string()));
    t.handle_update(K8sUpdate::NamespacesError { context: "dev".to_string(), error: "x".to_string() });
    assert_eq!(t.namespaces("dev").map(|v| v.len()), Some(0));
    assert!(!t.toggle_context("dev".to_string()));
}

#[test]
fn k8s_tree_loads_pods_per_namespace() {
    let mut t = K8sTreeState::new();
    assert_eq!(namespace_key("prod", "web"), "prod:web");
    assert!(t.toggle_namespace("prod", "web"));
    assert!(t.is_namespace_expanded("prod", "web"));
    assert!(!t.is_namespace_expanded("prod", "db"));
    assert!(t.toggle_namespace("prod", "db"));
    t.handle_update(K8sUpdate::PodsError { context: "prod".to_string(), namespace: "web".to_string(), error: "e".to_string() });
    assert_eq!(t.pods("prod", "web").map(|v| v.len()), Some(0));
    let pod = KubePod::from_parts(Some("db-0".to_string()), Some("prod".to_string()), None);
    t.handle_update(K8sUpdate::Pods { context: "prod".to_string(), namespace: "db".to_string(), pods: vec![pod] });
    assert_eq!(t.pods("prod", "db").map(|v| v[0].name.clone()), Some("db-0".to_string()));
    assert!(!t.toggle_namespace("prod", "db"));
    assert!(!t.toggle_namespace("prod", "db"));
}

#[test]
fn closing_a_sessions_tabs_keeps_the_others() {
    let mut tabs: TabList<u8> = TabList::new();
    let s = 7u128;
    tabs.open(TerminalTab::new(1, Some(s), "one".into()));
    let b = tabs.open(TerminalTab::new(2, None, "b".into()));
    tabs.open(TerminalTab::new(3, Some(s), "two".into()));
    let d = tabs.open(TerminalTab::new(4, Some(8), "d".into()));
    tabs.open(TerminalTab::new(5, Some(s), "three".into()));
    assert_eq!(tabs.active_index(), Some(4));
    tabs.close_session_tabs(s);
    let left: Vec<u128> = tabs.tabs().iter().map(|t| t.id).collect();
    assert_eq!(left, vec![b, d]);
    assert_eq!(tabs.active_index(), Some(1));
    tabs.close_session_tabs(9);
    assert_eq!(tabs.tabs().len(), 2);
}

#[test]
fn search_typing_and_backspace() {
    let mut bar = SearchBar::new();
    bar.set_match_count(3);
    bar.find_next();
    assert_eq!(bar.current_match_index(), 1);
    bar.handle_input("ab");
    assert_eq!(bar.query(), "ab");
    assert_eq!(bar.current_match_index(), 0);
    bar.handle_input("c");
    assert!(bar.handle_backspace());
    assert_eq!(bar.query(), "ab");
    assert!(bar.handle_backspace());
    assert!(bar.handle_backspace());
    assert_eq!(bar.query(), "");
    assert!(!bar.handle_backspace());
}

#[test]
fn delete_dialog_texts() {
    let mut d = DeleteConfirmDialog::new(DeleteTarget::Group { id: 5, name: "Prod".to_string() });
    assert_eq!(d.window_title(), "Delete Group");
    assert_eq!(d.heading(), "Delete Group?");
    assert_eq!(d.question(), "Are you sure you want to delete 'Prod'?");
    assert!(d.offers_recursive());
    assert!(!d.recursive());
    assert_eq!(d.note(), Some("Sessions will be moved to ungrouped."));
    d.toggle_recursive();
    assert!(d.recursive());
    assert_eq!(d.note(), None);
    let s = DeleteConfirmDialog::new(DeleteTarget::Session { id: 6, name: "web".to_string() });
    assert_eq!(s.window_title(), "Delete Session");
    assert_eq!(s.heading(), "Delete Session?");
    assert_eq!(s.question(), "Are you sure you want to delete 'web'?");
    assert!(!s.offers_recursive());
    assert_eq!(s.note(), None);
    assert!(matches!(s.target(), DeleteTarget::Session { id: 6, .. }));
}

#[test]
fn quit_dialog_counts_connections() {
    assert_eq!(QuitConfirmDialog::new(1).connection_text(), "1 active SSH connection");
    assert_eq!(QuitConfirmDialog::new(0).connection_text(), "0 active SSH connections");
    assert_eq!(
        QuitConfirmDialog::new(3).warning(),
        "You have 3 active SSH connections. Quitting will disconnect all sessions."
    );
}

#[test]
fn match_count_resets_to_first_match() {
    let mut s = SearchBar::new();
    s.set_match_count(5);
    s.find_next();
    assert_eq!(s.current_match_index(), 1);
    s.set_match_count(3);
    assert_eq!(s.current_match_index(), 0);
}

fn search_keystroke(key: &str, shift: bool, control: bool) -> Keystroke {
    Keystroke {
        modifiers: KeyModifiers { control, alt: false, shift, platform: false, function: false },
        key: key.to_string(),
    }
}

#[test]
fn search_keys_type_erase_and_navigate() {
    let mut s = SearchBar::new();
    match s.handle_key(&search_keystroke("a", false, false)) {
        Some(SearchBarEvent::QueryChanged(q)) => assert_eq!(q, "a"),
        other => panic!("unexpected {:?}", other),
    }
    match s.handle_key(&search_keystroke("space", false, false)) {
        Some(SearchBarEvent::QueryChanged(q)) => assert_eq!(q, "a "),
        other => panic!("unexpected {:?}", other),
    }
    match s.handle_key(&search_keystroke("backspace", false, false)) {
        Some(SearchBarEvent::QueryChanged(q)) => assert_eq!(q, "a"),
        other => panic!("unexpected {:?}", other),
    }
    // Ctrl-F and Ctrl-a type nothing.
    assert!(s.handle_key(&search_keystroke("f", false, true)).is_none());
    assert!(s.handle_key(&search_keystroke("a", false, true)).is_none());
    assert_eq!(s.query(), "a");
    // Without matches enter raises nothing.
    assert!(s.handle_key(&search_keystroke("enter", false, false)).is_none());
    s.set_match_count(3);
    assert!(matches!(s.handle_key(&search_keystroke("enter", false, false)), Some(SearchBarEvent::FindNext)));
    assert_eq!(s.current_match_index(), 1);
    assert!(matches!(s.handle_key(&search_keystroke("enter", true, false)), Some(SearchBarEvent::FindPrev)));
    assert!(matches!(s.handle_key(&search_keystroke("enter", true, false)), Some(SearchBarEvent::FindPrev)));
    assert_eq!(s.current_match_index(), 2);
    assert!(matches!(s.handle_key(&search_keystroke("escape", false, false)), Some(SearchBarEvent::Close)));
    assert_eq!(s.current_match_index(), 2);
}

#[test]
fn search_backspace_on_empty_query_raises_nothing() {
    let mut s = SearchBar::new();
    assert!(s.handle_key(&search_keystroke("backspace", false, false)).is_none());
    assert!(s.handle_key(&search_keystroke("tab", false, false)).is_none());
    assert_eq!(s.query(), "");
}
