use redpill::session::models::{AuthMethod, K8sSession, SshSession, SsmSession};
use redpill::terminal::colors::{
    color_to_rgb, color_to_rgb_with_scheme, hex_to_rgb, index_to_rgb, Color, NamedColor, Palette, Rgb,
};
use redpill::terminal::grid::{cell_dimensions, SizeInfo, TerminalConfig, TerminalSize};
use redpill::terminal::k8s::{
    shell_command, ConnectionState as K8sState, K8sBackend, K8sConnectAction, K8sConnectEvent, K8sError,
    TerminalSize as K8sSize,
};
use redpill::terminal::keys::{alt_acts_as_meta, compute_modifier_code, keystroke_to_escape, KeyModifiers, Keystroke, TermMode};
use redpill::terminal::ssh::{
    accept_host_key, host_matches, known_hosts_entry, lookup_known_host, reconnect_delay,
    agent_failure, auth_outcome, auth_request, reconnect_next, ReconnectAction, identity_accepted, key_load_failure, AgentFailure, AuthRequest,
    ChannelEvent, ConnectAction, ConnectEvent, ConnectionState as SshState, HostKeyStatus, KnownHostMatch,
    SshBackend, SshError,
};
use redpill::terminal::ssm::{
    build_ack_message, build_ssm_message, handle_ssm_message, parse_header, ssm_message_accepted, start_session_error,
    ConnectionState as SsmState, SsmBackend, SsmError, SsmMessageBuilder, WsAction, WsEvent,
};
use redpill::config::ColorScheme;

fn make_keystroke(key: &str, ctrl: bool, alt: bool, shift: bool) -> Keystroke {
    Keystroke {
        modifiers: KeyModifiers { control: ctrl, alt, shift, platform: false, function: false },
        key: key.to_string(),
    }
}

fn esc(s: &str) -> Option<String> {
    Some(s.to_string())
}

#[test]
fn test_arrow_keys_normal_mode() {
    let mode = TermMode::none();
    assert_eq!(keystroke_to_escape(&make_keystroke("up", false, false, false), &mode, false), esc("\x1b[A"));
    assert_eq!(keystroke_to_escape(&make_keystroke("down", false, false, false), &mode, false), esc("\x1b[B"));
    assert_eq!(keystroke_to_escape(&make_keystroke("right", false, false, false), &mode, false), esc("\x1b[C"));
    assert_eq!(keystroke_to_escape(&make_keystroke("left", false, false, false), &mode, false), esc("\x1b[D"));
}

#[test]
fn test_arrow_keys_app_cursor_mode() {
    let mode = TermMode::app_cursor_mode();
    assert_eq!(keystroke_to_escape(&make_keystroke("up", false, false, false), &mode, false), esc("\x1bOA"));
    assert_eq!(keystroke_to_escape(&make_keystroke("down", false, false, false), &mode, false), esc("\x1bOB"));
    assert_eq!(keystroke_to_escape(&make_keystroke("right", false, false, false), &mode, false), esc("\x1bOC"));
    assert_eq!(keystroke_to_escape(&make_keystroke("left", false, false, false), &mode, false), esc("\x1bOD"));
}

#[test]
fn test_ctrl_c() {
    let mode = TermMode::none();
    assert_eq!(keystroke_to_escape(&make_keystroke("c", true, false, false), &mode, false), esc("\x03"));
}

#[test]
fn test_enter_and_backspace() {
    let mode = TermMode::none();
    assert_eq!(keystroke_to_escape(&make_keystroke("enter", false, false, false), &mode, false), esc("\x0d"));
    assert_eq!(keystroke_to_escape(&make_keystroke("backspace", false, false, false), &mode, false), esc("\x7f"));
}

#[test]
fn test_modifier_code() {
    assert_eq!(compute_modifier_code(&make_keystroke("a", false, false, true)), 2);
    assert_eq!(compute_modifier_code(&make_keystroke("a", false, true, false)), 3);
    assert_eq!(compute_modifier_code(&make_keystroke("a", false, true, true)), 4);
    assert_eq!(compute_modifier_code(&make_keystroke("a", true, false, false)), 5);
    assert_eq!(compute_modifier_code(&make_keystroke("a", true, false, true)), 6);
    assert_eq!(compute_modifier_code(&make_keystroke("a", true, true, false)), 7);
    assert_eq!(compute_modifier_code(&make_keystroke("a", true, true, true)), 8);
}

#[test]
fn shifted_arrow_uses_modifier_code() {
    let mode = TermMode::none();
    assert_eq!(keystroke_to_escape(&make_keystroke("up", false, false, true), &mode, false), esc("\x1b[1;2A"));
}

#[test]
fn test_message_builder() {
    let mut builder = SsmMessageBuilder::new();
    let msg = builder.build_input(b"hello");
    assert!(msg.len() >= 120);
    let resize_msg = builder.build_resize(120, 40);
    assert!(resize_msg.len() >= 120);
}

#[test]
fn ssm_input_message_roundtrips() {
    let mut builder = SsmMessageBuilder::new();
    let msg = builder.build_input(b"hello");
    assert_eq!(msg.len(), 125);
    let (header, payload) = parse_header(&msg).unwrap();
    assert_eq!(header.message_type, "input_stream_data");
    assert_eq!(header.sequence_number, 0);
    assert_eq!(header.header_length, 116);
    assert_eq!(header.payload_length, 5);
    assert_eq!(payload, b"hello".to_vec());
    let second = builder.build_input(b"x");
    let (h2, _) = parse_header(&second).unwrap();
    assert_eq!(h2.sequence_number, 1);
}

#[test]
fn ssm_ack_is_ignored_and_short_messages_too() {
    let ack = build_ack_message(7, 3);
    assert!(matches!(handle_ssm_message(&ack), Ok((None, None))));
    assert!(matches!(handle_ssm_message(&[1, 2, 3]), Ok((None, None))));
}

#[test]
fn test_ssm_backend_creation() {
    let session = SsmSession::new("test".to_string(), "i-1234567890abcdef0".to_string());
    let backend = SsmBackend::new(session);
    assert_eq!(backend.state(), SsmState::Disconnected);
    assert!(!backend.is_alive());
}

#[test]
fn ssm_description_and_errors() {
    let session = SsmSession::new("test".to_string(), "i-1".to_string());
    let mut backend = SsmBackend::new(session);
    assert_eq!(backend.description(), "SSM:i-1@default-region");
    assert!(matches!(backend.session_started(None, Some("t".into()), None), Err(SsmError::SsmApi(m)) if m == "No stream URL in response"));
    assert!(matches!(backend.session_started(Some("u".into()), None, None), Err(SsmError::SsmApi(m)) if m == "No token in response"));
    assert!(backend.session_started(Some("wss://x".into()), Some("tok".into()), None).is_ok());
    assert_eq!(backend.stream_url(), Some("wss://x"));
    assert_eq!(backend.token(), Some("tok"));
    backend.set_state(SsmState::Connected);
    assert!(backend.is_alive());
    assert!(matches!(start_session_error("TargetNotConnected: x", "i-9"), SsmError::InstanceNotFound(m)
        if m == "Instance i-9 is not connected to SSM or does not exist"));
    assert!(matches!(start_session_error("AccessDeniedException", "i-9"), SsmError::Authentication(m)
        if m == "Access denied: AccessDeniedException"));
    assert!(matches!(start_session_error("throttled", "i-9"), SsmError::SsmApi(m) if m == "throttled"));
}

#[test]
fn test_ssh_backend_creation() {
    let session = SshSession::new("test".to_string(), "localhost".to_string(), "user".to_string());
    let backend = SshBackend::new(session);
    assert_eq!(backend.state(), SshState::Disconnected);
    assert!(!backend.is_alive());
    assert_eq!(backend.description(), "user@localhost:22");
}

#[test]
fn host_key_decisions() {
    assert!(accept_host_key(&HostKeyStatus::Verified));
    assert!(accept_host_key(&HostKeyStatus::TrustOnFirstUse));
    assert!(accept_host_key(&HostKeyStatus::Error("x".into())));
    assert!(!accept_host_key(&HostKeyStatus::Mismatch));
    assert_eq!(reconnect_delay(1), 1);
    assert_eq!(reconnect_delay(2), 2);
    assert_eq!(reconnect_delay(3), 4);
}

#[test]
fn host_patterns_match() {
    assert!(host_matches("example.com", "example.com"));
    assert!(host_matches("other.org, example.com", "example.com"));
    assert!(host_matches("[example.com]:2222", "example.com"));
    assert!(host_matches("*.example.com", "web.example.com"));
    assert!(!host_matches("*.example.com", "example.org"));
    assert!(!host_matches("|1|abc=|def=", "example.com"));
    assert!(!host_matches("example.com", "example.co"));
}

#[test]
fn known_hosts_lookup() {
    let contents = "# comment\n\nexample.com ssh-ed25519 AAAAkey1\nother.org ssh-rsa AAAArsa\n";
    assert_eq!(lookup_known_host(contents, "example.com", "ssh-ed25519", "AAAAkey1"), KnownHostMatch::Verified);
    assert_eq!(lookup_known_host(contents, "example.com", "ssh-ed25519", "AAAAother"), KnownHostMatch::Mismatch);
    assert_eq!(lookup_known_host(contents, "example.com", "ssh-rsa", "AAAArsa"), KnownHostMatch::Unknown);
    assert_eq!(lookup_known_host(contents, "new.host", "ssh-ed25519", "AAAAkey1"), KnownHostMatch::Unknown);
    assert_eq!(known_hosts_entry("h", "ssh-rsa", "K"), "h ssh-rsa K\n");
}

#[test]
fn k8s_backend_state() {
    let session = K8sSession::new("pod", "ctx", "default", "web-0");
    let mut backend = K8sBackend::new(session);
    assert_eq!(backend.state(), K8sState::Disconnected);
    assert_eq!(backend.session().pod, "web-0");
    backend.set_size(K8sSize::new(100, 30));
    assert_eq!(backend.size().cols, 100);
    assert_eq!(shell_command().len(), 3);
}

#[test]
fn test_terminal_config_default() {
    let config = TerminalConfig::default();
    assert_eq!(config.scrollback_lines, 10000);
    assert_eq!(config.size.cols, 80);
    assert_eq!(config.size.rows, 24);
}

#[test]
fn sizes_and_cells() {
    let s = TerminalSize::with_pixels(80, 24, 640, 480);
    assert_eq!(cell_dimensions(s), (8, 20));
    assert_eq!(cell_dimensions(TerminalSize::new(80, 24)), (8, 14));
    assert_eq!(cell_dimensions(TerminalSize::with_pixels(100, 24, 50, 0)), (1, 14));
    let info = SizeInfo::new(120, 40);
    assert_eq!(info.columns(), 120);
    assert_eq!(info.screen_lines(), 40);
    assert_eq!(info.total_lines(), 40);
}

#[test]
fn test_color_conversion() {
    let colors = Palette::default();
    let rgb = color_to_rgb(Color::Named(NamedColor::Red), &colors);
    assert!(rgb.r > 0);
    let rgb = index_to_rgb(1);
    assert_eq!(rgb.r, 205);
    assert_eq!(rgb.g, 0);
    assert_eq!(rgb.b, 0);
}

#[test]
fn color_tables() {
    assert_eq!(hex_to_rgb(0x1e1e2e), Rgb { r: 0x1e, g: 0x1e, b: 0x2e });
    assert_eq!(index_to_rgb(16), Rgb { r: 0, g: 0, b: 0 });
    assert_eq!(index_to_rgb(21), Rgb { r: 0, g: 0, b: 255 });
    assert_eq!(index_to_rgb(231), Rgb { r: 255, g: 255, b: 255 });
    assert_eq!(index_to_rgb(232), Rgb { r: 8, g: 8, b: 8 });
    assert_eq!(index_to_rgb(255), Rgb { r: 238, g: 238, b: 238 });
    let mut colors = Palette::new();
    colors.set(1, Some(Rgb { r: 1, g: 2, b: 3 }));
    assert_eq!(color_to_rgb(Color::Indexed(1), &colors), Rgb { r: 1, g: 2, b: 3 });
    assert_eq!(color_to_rgb(Color::Named(NamedColor::Background), &colors), Rgb { r: 0, g: 0, b: 0 });
    assert_eq!(color_to_rgb(Color::Named(NamedColor::Cursor), &colors), Rgb { r: 229, g: 229, b: 229 });
    let scheme = ColorScheme::matrix();
    assert_eq!(color_to_rgb_with_scheme(Color::Indexed(2), &colors, &scheme), Rgb { r: 0, g: 255, b: 0 });
    assert_eq!(color_to_rgb_with_scheme(Color::Named(NamedColor::Background), &colors, &scheme), Rgb { r: 0, g: 0, b: 0 });
    assert_eq!(color_to_rgb_with_scheme(Color::Indexed(1), &colors, &scheme), Rgb { r: 0, g: 0x33, b: 0 });
    assert_eq!(color_to_rgb_with_scheme(Color::Named(NamedColor::Red), &colors, &scheme), Rgb { r: 1, g: 2, b: 3 });
}

#[test]
fn ssh_read_keeps_what_does_not_fit() {
    let session = SshSession::new("test".to_string(), "localhost".to_string(), "user".to_string());
    let mut backend = SshBackend::new(session);
    backend.set_state(SshState::Connected);
    let mut buf = [0u8; 4];
    assert_eq!(backend.read_buffered(&mut buf), None);
    let n = backend.read_event(ChannelEvent::Data(b"hello world".to_vec()), &mut buf);
    assert!(matches!(n, Ok(4)));
    assert_eq!(&buf, b"hell");
    assert_eq!(backend.read_buffered(&mut buf), Some(4));
    assert_eq!(&buf, b"o wo");
    let mut big = [0u8; 8];
    assert_eq!(backend.read_buffered(&mut big), Some(3));
    assert_eq!(&big[..3], b"rld");
    assert_eq!(big[3], 0);
    assert_eq!(backend.read_buffered(&mut big), None);
    assert_eq!(backend.state(), SshState::Connected);
}

#[test]
fn ssh_read_events_end_the_connection() {
    let session = SshSession::new("test".to_string(), "localhost".to_string(), "user".to_string());
    let mut backend = SshBackend::new(session);
    let mut buf = [0u8; 4];
    backend.set_state(SshState::Connected);
    assert!(matches!(backend.read_event(ChannelEvent::ExtendedData(b"ab".to_vec()), &mut buf), Ok(2)));
    assert_eq!(&buf[..2], b"ab");
    assert!(matches!(backend.read_event(ChannelEvent::TimedOut, &mut buf), Ok(0)));
    assert!(matches!(backend.read_event(ChannelEvent::Other, &mut buf), Ok(0)));
    assert_eq!(backend.state(), SshState::Connected);
    assert!(matches!(backend.read_event(ChannelEvent::ExitStatus(1), &mut buf), Ok(0)));
    assert_eq!(backend.state(), SshState::Disconnected);
    backend.set_state(SshState::Connected);
    assert!(matches!(backend.read_event(ChannelEvent::Eof, &mut buf), Ok(0)));
    assert_eq!(backend.state(), SshState::Disconnected);
    backend.set_state(SshState::Connected);
    assert!(matches!(backend.read_event(ChannelEvent::Closed, &mut buf), Err(SshError::ChannelClosed)));
    assert_eq!(backend.state(), SshState::Disconnected);
    assert!(matches!(backend.read_event(ChannelEvent::NoChannel, &mut buf), Err(SshError::NotConnected)));
    backend.set_state(SshState::Connected);
    let _ = backend.read_event(ChannelEvent::Data(b"123456".to_vec()), &mut buf);
    backend.reset_for_reconnect();
    assert_eq!(backend.state(), SshState::Disconnected);
    assert_eq!(backend.read_buffered(&mut buf), None);
}

#[test]
fn ssh_auth_requests() {
    let mut session = SshSession::new("s".to_string(), "h".to_string(), "bob".to_string());
    session.auth = AuthMethod::Password { password: None, use_keychain: false };
    assert!(matches!(auth_request(&session), Err(SshError::AuthenticationFailed(m)) if m == "Password not provided"));
    session.auth = AuthMethod::Password { password: Some("pw".to_string()), use_keychain: false };
    assert!(matches!(auth_request(&session),
        Ok(AuthRequest::Password { username, password }) if username == "bob" && password == "pw"));
    session.auth = AuthMethod::PrivateKey { path: "~/.ssh/id".to_string(), passphrase: None, use_keychain: false };
    assert!(matches!(auth_request(&session),
        Ok(AuthRequest::PrivateKey { username, path, passphrase: None }) if username == "bob" && path == "~/.ssh/id"));
    session.auth = AuthMethod::Agent;
    assert!(matches!(auth_request(&session), Ok(AuthRequest::Agent { username }) if username == "bob"));
}

#[test]
fn ssh_auth_errors() {
    assert!(matches!(auth_outcome(Ok(true)), Ok(true)));
    assert!(matches!(auth_outcome(Ok(false)), Ok(false)));
    assert!(matches!(auth_outcome(Err("denied".to_string())), Err(SshError::AuthenticationFailed(m)) if m == "denied"));
    assert!(matches!(key_load_failure("bad key"), SshError::AuthenticationFailed(m)
        if m == "Failed to load private key: bad key"));
    assert!(matches!(agent_failure(AgentFailure::NoSocket), SshError::AuthenticationFailed(m)
        if m == "Agent authentication failed: Authentication failed: SSH_AUTH_SOCK not set"));
    assert!(matches!(agent_failure(AgentFailure::Connect("refused".to_string())), SshError::AuthenticationFailed(m)
        if m == "Agent authentication failed: Authentication failed: Failed to connect to agent: refused"));
    assert!(matches!(agent_failure(AgentFailure::Identities("x".to_string())), SshError::AuthenticationFailed(m)
        if m == "Agent authentication failed: Authentication failed: Failed to get identities: x"));
    assert!(identity_accepted(&Ok(true)));
    assert!(!identity_accepted(&Ok(false)));
    assert!(!identity_accepted(&Err("e".to_string())));
}

#[test]
fn ssh_connect_sequence() {
    let mut session = SshSession::new("s".to_string(), "example.org".to_string(), "bob".to_string());
    session.port = 2222;
    let mut backend = SshBackend::new(session);
    assert_eq!(backend.begin_connect(), "example.org:2222");
    assert_eq!(backend.state(), SshState::Connecting);
    assert!(matches!(backend.connect_step(ConnectEvent::TransportReady), ConnectAction::Authenticate));
    assert!(matches!(backend.connect_step(ConnectEvent::Authenticated(Ok(true))), ConnectAction::OpenChannel));
    assert!(matches!(backend.connect_step(ConnectEvent::ChannelOpened),
        ConnectAction::RequestPty { term, cols: 80, rows: 24, pixel_width: 0, pixel_height: 0 } if term == "xterm-256color"));
    assert!(matches!(backend.connect_step(ConnectEvent::PtyGranted), ConnectAction::RequestShell));
    assert_eq!(backend.state(), SshState::Connecting);
    assert!(matches!(backend.connect_step(ConnectEvent::ShellStarted), ConnectAction::Connected));
    assert!(backend.is_alive());
}

#[test]
fn ssh_connect_failures() {
    let session = SshSession::new("s".to_string(), "h".to_string(), "bob".to_string());
    let mut backend = SshBackend::new(session);
    backend.begin_connect();
    assert!(matches!(backend.connect_step(ConnectEvent::TransportTimedOut),
        ConnectAction::Failed(SshError::ConnectionTimeout(5))));
    assert_eq!(backend.state(), SshState::Failed);
    backend.begin_connect();
    assert!(matches!(backend.connect_step(ConnectEvent::TransportFailed("refused".into())),
        ConnectAction::Failed(SshError::ConnectionFailed(m)) if m == "refused"));
    backend.begin_connect();
    assert!(matches!(backend.connect_step(ConnectEvent::Authenticated(Ok(false))),
        ConnectAction::Failed(SshError::AuthenticationFailed(m)) if m == "Authentication failed"));
    assert_eq!(backend.state(), SshState::Failed);
    backend.begin_connect();
    assert!(matches!(backend.connect_step(ConnectEvent::Authenticated(Err(SshError::NotConnected))),
        ConnectAction::Failed(SshError::NotConnected)));
    assert_eq!(backend.state(), SshState::Connecting);
    assert!(matches!(backend.connect_step(ConnectEvent::ChannelFailed("no".into())),
        ConnectAction::Failed(SshError::SshError(m)) if m == "Failed to open channel: no"));
    assert!(matches!(backend.connect_step(ConnectEvent::PtyFailed("no".into())),
        ConnectAction::Failed(SshError::SshError(m)) if m == "Failed to request PTY: no"));
    assert!(matches!(backend.connect_step(ConnectEvent::ShellFailed("no".into())),
        ConnectAction::Failed(SshError::SshError(m)) if m == "Failed to request shell: no"));
    assert_eq!(backend.state(), SshState::Failed);
}

#[test]
fn k8s_connect_sequence() {
    let session = K8sSession::with_container("pod", "ctx", "prod", "web-0", "app".to_string());
    let mut backend = K8sBackend::new(session);
    backend.set_size(K8sSize::new(120, 40));
    assert_eq!(backend.begin_connect(), "ctx");
    assert_eq!(backend.state(), K8sState::Connecting);
    assert!(matches!(backend.connect_step(K8sConnectEvent::ConfigLoaded),
        K8sConnectAction::LookupPod { namespace, pod } if namespace == "prod" && pod == "web-0"));
    match backend.connect_step(K8sConnectEvent::PodFound) {
        K8sConnectAction::Exec { pod, container, command } => {
            assert_eq!(pod, "web-0");
            assert_eq!(container.as_deref(), Some("app"));
            assert_eq!(command, shell_command());
        },
        _ => panic!("expected exec"),
    }
    assert!(matches!(backend.connect_step(K8sConnectEvent::Attached),
        K8sConnectAction::Start(K8sSize { cols: 120, rows: 40 })));
    assert_eq!(backend.state(), K8sState::Connected);
}

#[test]
fn k8s_connect_failures() {
    let session = K8sSession::new("pod", "ctx", "prod", "web-0");
    let mut backend = K8sBackend::new(session);
    backend.begin_connect();
    assert!(matches!(backend.connect_step(K8sConnectEvent::PodMissing),
        K8sConnectAction::Failed(K8sError::PodNotFound(ns, pod)) if ns == "prod" && pod == "web-0"));
    assert!(matches!(backend.connect_step(K8sConnectEvent::ConfigFailed("bad".into())),
        K8sConnectAction::Failed(K8sError::ConfigError(m)) if m == "bad"));
    assert!(matches!(backend.connect_step(K8sConnectEvent::ClientFailed("tls".into())),
        K8sConnectAction::Failed(K8sError::KubeError(m)) if m == "tls"));
    assert!(matches!(backend.connect_step(K8sConnectEvent::AttachFailed("denied".into())),
        K8sConnectAction::Failed(K8sError::KubeError(m)) if m == "denied"));
    assert_eq!(backend.state(), K8sState::Connecting);
}

#[test]
fn ssh_reconnect_schedule() {
    assert!(matches!(reconnect_next(1, true), ReconnectAction::Connected));
    assert!(matches!(reconnect_next(1, false), ReconnectAction::Retry { attempt: 2, delay_secs: 2 }));
    assert!(matches!(reconnect_next(2, false), ReconnectAction::Retry { attempt: 3, delay_secs: 4 }));
    assert!(matches!(reconnect_next(3, false), ReconnectAction::GiveUp(SshError::ConnectionFailed(m))
        if m == "Failed to reconnect after 3 attempts"));
}

#[test]
fn ssm_websocket_setup() {
    let session = SsmSession::new("test".to_string(), "i-1".to_string());
    let mut backend = SsmBackend::new(session);
    assert!(matches!(backend.websocket_target(), Err(SsmError::NotConnected)));
    backend.begin_connect();
    assert_eq!(backend.state(), SsmState::Connecting);
    backend.session_started(Some("wss://x".into()), Some("tok".into()), Some("s-1".into())).unwrap();
    let (url, token) = backend.websocket_target().unwrap();
    assert_eq!((url.as_str(), token.as_str()), ("wss://x", "tok"));
    assert!(matches!(backend.websocket_step(WsEvent::Opened), WsAction::SendAuth));
    assert_eq!(backend.state(), SsmState::Authenticating);
    assert!(matches!(backend.websocket_step(WsEvent::AuthSent), WsAction::AwaitAuth));
    match backend.websocket_step(WsEvent::AuthAnswered) {
        WsAction::SendSize(m) => {
            let (header, payload) = parse_header(&m).unwrap();
            assert_eq!(header.sequence_number, 0);
            assert_eq!(payload, b"{\"cols\":80,\"rows\":24}".to_vec());
        },
        _ => panic!("expected the size message"),
    }
    assert_eq!(backend.state(), SsmState::Handshaking);
    assert!(matches!(backend.websocket_step(WsEvent::SizeSent), WsAction::Connected));
    assert!(backend.is_alive());
}

#[test]
fn ssm_websocket_failures() {
    let session = SsmSession::new("test".to_string(), "i-1".to_string());
    let mut backend = SsmBackend::new(session);
    assert!(matches!(backend.websocket_step(WsEvent::OpenTimedOut),
        WsAction::Failed(SsmError::Timeout(m)) if m == "WebSocket connection timed out"));
    assert!(matches!(backend.websocket_step(WsEvent::OpenFailed("dns".into())),
        WsAction::Failed(SsmError::WebSocketConnection(m)) if m == "dns"));
    assert!(matches!(backend.websocket_step(WsEvent::AuthSendFailed("x".into())),
        WsAction::Failed(SsmError::WebSocket(m)) if m == "Failed to send auth: x"));
    assert!(matches!(backend.websocket_step(WsEvent::AuthTimedOut),
        WsAction::Failed(SsmError::Timeout(m)) if m == "Authentication response timed out"));
    assert!(matches!(backend.websocket_step(WsEvent::AuthClosed),
        WsAction::Failed(SsmError::SessionClosed(m)) if m == "WebSocket closed during auth"));
    assert!(matches!(backend.websocket_step(WsEvent::AuthFailed("y".into())),
        WsAction::Failed(SsmError::WebSocket(m)) if m == "Auth response error: y"));
    assert!(matches!(backend.websocket_step(WsEvent::SizeSendFailed("z".into())),
        WsAction::Failed(SsmError::WebSocket(m)) if m == "Failed to send size: z"));
    assert_eq!(backend.state(), SsmState::Disconnected);
}

#[test]
fn ssm_short_data_is_a_protocol_error() {
    assert!(matches!(parse_header(&[0, 0]), Err(SsmError::Protocol(m)) if m == "Message too short for header length"));
    assert!(matches!(parse_header(&[0, 0, 0, 116, 1, 2]), Err(SsmError::Protocol(m)) if m == "Message too short: 6 < 120"));
    assert!(matches!(parse_header(&[0, 0, 0, 0, 9, 9, 9, 9, 9, 9]), Err(SsmError::Protocol(m)) if m == "Message too short: 10 < 120"));
    let mut big = vec![0xffu8; 4];
    big.extend(vec![0u8; 200]);
    assert!(matches!(parse_header(&big), Err(SsmError::Protocol(m)) if m == "Message too short: 204 < 4294967299"));
    let mut b = SsmMessageBuilder::new();
    b.build_input(b"hello");
    let resize = b.build_resize(120, 40);
    assert_eq!(resize.len(), 142);
    assert_eq!(&resize[112..116], &3u32.to_be_bytes());
    assert_eq!(&resize[48..56], &1i64.to_be_bytes());
}

#[test]
fn ssh_reconnect_gives_up_failed() {
    let session = SshSession::new("s".to_string(), "h".to_string(), "bob".to_string());
    let mut backend = SshBackend::new(session);
    backend.begin_connect();
    assert!(matches!(backend.connect_step(ConnectEvent::Authenticated(Err(SshError::NotConnected))),
        ConnectAction::Failed(_)));
    assert_eq!(backend.state(), SshState::Connecting);
    assert!(matches!(backend.reconnect_step(2, false), ReconnectAction::Retry { attempt: 3, delay_secs: 4 }));
    assert_eq!(backend.state(), SshState::Connecting);
    assert!(matches!(backend.reconnect_step(3, false), ReconnectAction::GiveUp(SshError::ConnectionFailed(m))
        if m == "Failed to reconnect after 3 attempts"));
    assert_eq!(backend.state(), SshState::Failed);
}

#[test]
fn ssm_builder_numbers_input_and_resize_only() {
    let mut b = SsmMessageBuilder::new();
    let m0 = b.build_input(b"a");
    let ack = b.build_ack(9, 77);
    let m1 = b.build_resize(80, 24);
    let m2 = b.build_input(b"b");
    assert_eq!(&m0[48..56], &0i64.to_be_bytes());
    assert_eq!(&ack[48..56], &77i64.to_be_bytes());
    assert_eq!(&m1[48..56], &1i64.to_be_bytes());
    assert_eq!(&m2[48..56], &2i64.to_be_bytes());
}

#[test]
fn alt_sends_escape_prefix_off_macos() {
    let mode = TermMode::none();
    let ks = make_keystroke("x", false, true, false);
    // Everywhere but macOS, Alt acts as Meta whatever the Option setting.
    let meta = alt_acts_as_meta(false, false);
    assert!(meta);
    assert_eq!(keystroke_to_escape(&ks, &mode, meta), Some("\x1bx".to_string()));
    // On macOS only with Option-as-Meta.
    assert!(!alt_acts_as_meta(true, false));
    assert_eq!(keystroke_to_escape(&ks, &mode, alt_acts_as_meta(true, false)), None);
    assert!(alt_acts_as_meta(true, true));
    let shifted = make_keystroke("x", false, true, true);
    assert_eq!(keystroke_to_escape(&shifted, &mode, alt_acts_as_meta(true, true)), Some("\x1bX".to_string()));
}

#[test]
fn ssm_payload_length_past_the_data_is_refused() {
    let msg = build_ssm_message("output_stream_data", 7, 1, b"hi");
    assert!(ssm_message_accepted(&msg));
    match handle_ssm_message(&msg) {
        Ok((Some(out), Some((_, 7)))) => assert_eq!(out, b"hi".to_vec()),
        other => panic!("unexpected {:?}", other.map(|(o, _)| o)),
    }
    let mut bad = msg.clone();
    bad[116..120].copy_from_slice(&100u32.to_be_bytes());
    assert!(!ssm_message_accepted(&bad));
    // Other messages and short data are always taken.
    assert!(ssm_message_accepted(&[0u8; 10]));
    let mut ack = build_ssm_message("acknowledge", 1, 0, b"x");
    ack[116..120].copy_from_slice(&100u32.to_be_bytes());
    assert!(ssm_message_accepted(&ack));
}
