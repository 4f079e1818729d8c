use ecows::client::{Frame, TheClient};
use ecows::server::Server;
use ecows::tokens::Role;

#[test]
fn log_appends_newline() {
    let mut s: Server<()> = Server::new();
    assert_eq!(s.log("x"), "x\n");
    assert_eq!(s.log("y\n"), "y\n");
    assert_eq!(s.log(""), "\n");
    assert_eq!(s.logs, vec!["x\n".to_string(), "y\n".to_string(), "\n".to_string()]);
}

#[test]
fn insecure_warning_logged_once() {
    let mut s: Server<()> = Server::new();
    let w = s.warn_insecure().unwrap();
    assert!(w.starts_with("WARNING: No admin tokens set"));
    assert!(s.logs[0].starts_with("WARNING: No admin tokens set"));
    assert_eq!(s.warn_insecure(), None);
    assert_eq!(s.logs.len(), 1);
}

#[test]
fn no_warning_with_admin_token() {
    let mut s: Server<()> = Server::new();
    s.add_token(Role::Admin, "secret".to_string());
    assert_eq!(s.warn_insecure(), None);
    assert!(s.logs.is_empty());
}

#[test]
fn admin_connects_with_default_token() {
    let mut s: Server<u32> = Server::new();
    assert!(s.warn_insecure().is_some());
    assert_eq!(s.accept(7, "1.1.1.1:1".to_string()), "1.1.1.1:1 connected\n");
    assert_eq!(s.count, 1);
    let tokens = &s.tokens;
    let conn = &mut s.connections[0];
    assert_eq!(conn.io, 7);
    assert!(conn.http_request(tokens, "GET", "/admin?token=admin").is_ok());
    assert!(conn.is_admin());
    assert!(s.logs.iter().any(|l| l.starts_with("WARNING: No admin tokens set")));
}

#[test]
fn logged_line_reaches_admin() {
    let mut s: Server<()> = Server::new();
    s.add_token(Role::Admin, "root".to_string());
    s.accept((), "a".to_string());
    let tokens = &s.tokens;
    assert!(s.connections[0].http_request(tokens, "GET", "/admin?token=root").is_ok());
    s.connections[0].session_tick(&s.logs);
    s.log("x");
    let logs = s.logs.clone();
    let out = s.connections[0].session_tick(&logs);
    assert_eq!(out, vec!["{\"message\":\"x\\n\",\"target\":\"console/log\"}".to_string()]);
}

#[test]
fn close_then_sweep_removes() {
    let mut s: Server<u8> = Server::new();
    s.accept(1, "a".to_string());
    s.accept(2, "b".to_string());
    s.accept(3, "c".to_string());
    s.connections[1].message(Frame::Close(1000, String::new()));
    assert!(s.connections[1].closing);
    s.sweep();
    assert_eq!(s.connections.len(), 2);
    assert_eq!(s.connections[0].io, 1);
    assert_eq!(s.connections[1].io, 3);
    s.sweep();
    assert_eq!(s.connections.len(), 2);
}

#[test]
fn settingsui_resends_to_admins() {
    let mut s: Server<()> = Server::new();
    s.accept((), "a".to_string());
    s.accept((), "b".to_string());
    let tokens = &s.tokens;
    assert!(s.connections[0].http_request(tokens, "GET", "/admin?token=admin").is_ok());
    let ui = s.settingsui.clone();
    assert_eq!(s.connections[0].ui_tick(&ui), None);
    s.settingsui("<ui>");
    let ui = s.settingsui.clone();
    assert_eq!(
        s.connections[0].ui_tick(&ui),
        Some("{\"message\":\"<ui>\",\"target\":\"settings/ui\"}".to_string())
    );
    assert_eq!(s.connections[0].ui_tick(&ui), None);
    assert_eq!(s.connections[1].ui_tick(&ui), None);
    s.settingsui("<ui2>");
    match &s.connections[0].cl {
        Some(TheClient::Admin(a)) => assert!(!a.has_ui),
        _ => panic!("expected an admin session"),
    }
    let ui = s.settingsui.clone();
    assert!(s.connections[0].ui_tick(&ui).is_some());
}

#[test]
fn visualize_envelope() {
    let s: Server<()> = Server::new();
    assert_eq!(
        s.visualize("scope", "data"),
        "{\"message\":{\"scope\":\"scope\",\"content\":\"data\"},\"target\":\"debug/write\"}"
    );
}

#[test]
fn count_accept_counts() {
    let mut s: Server<()> = Server::new();
    s.count_accept();
    s.count_accept();
    assert_eq!(s.count, 2);
    assert!(s.connections.is_empty());
}
