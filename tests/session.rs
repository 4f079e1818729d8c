use ecows::client::{
    command_output, AdminClient, Connection, Frame, HandshakeError, RecvOutcome, Reply, SendOutcome,
    TheClient, WebClient,
};
use ecows::message::{envelope, json_text, text_envelope, Message, StringTable, Visualizer, Welcome};
use ecows::tokens::{Role, Tokens};

fn logs(n: usize) -> Vec<String> {
    (0..n).map(|i| format!("line {}\n", i)).collect()
}

fn log_env(s: &str) -> String {
    format!("{{\"message\":{},\"target\":\"console/log\"}}", serde_json::to_string(s).unwrap())
}

#[test]
fn json_text_escapes() {
    assert_eq!(json_text("a\"b\n"), "\"a\\\"b\\n\"");
    assert_eq!(text_envelope("console/log", "x\n"), "{\"message\":\"x\\n\",\"target\":\"console/log\"}");
    assert_eq!(envelope("1", "\"t\""), "{\"message\":1,\"target\":\"t\"}");
}

#[test]
fn payloads_serialize() {
    let w = Welcome { addr: "1.2.3.4:5".to_string(), role: Role::User, name: "Anonymous".to_string() };
    assert_eq!(w.to_json(), "{\"addr\":\"1.2.3.4:5\",\"role\":\"User\",\"name\":\"Anonymous\"}");
    let v = Visualizer { scope: "s".to_string(), content: "c".to_string() };
    assert_eq!(v.to_json(), "{\"scope\":\"s\",\"content\":\"c\"}");
    let t = StringTable { name: "n".to_string(), values: vec!["a".to_string(), "b".to_string()] };
    assert_eq!(t.to_json(), "{\"name\":\"n\",\"values\":[\"a\",\"b\"]}");
    let e = StringTable { name: "n".to_string(), values: vec![] };
    assert_eq!(e.to_json(), "{\"name\":\"n\",\"values\":[]}");
    let m = Message { message: "[1]".to_string(), target: "x/y".to_string() };
    assert_eq!(m.to_json(), "{\"message\":[1],\"target\":\"x/y\"}");
}

#[test]
fn web_login_welcomes_anonymous_user() {
    let mut w = WebClient::new();
    assert_eq!(w.tick("10.0.0.1:80"), None);
    w.request_state();
    w.request_login();
    let out = w.tick("10.0.0.1:80").unwrap();
    assert_eq!(
        out,
        "{\"message\":{\"addr\":\"10.0.0.1:80\",\"role\":\"User\",\"name\":\"Anonymous\"},\"target\":\"auth/welcome\"}"
    );
    assert!(!w.login);
    assert!(w.update);
    assert_eq!(w.tick("10.0.0.1:80"), None);
}

#[test]
fn admin_streams_all_new_lines() {
    let l = logs(3);
    let mut a = AdminClient::new();
    let out = a.tick(&l);
    assert_eq!(out, vec![log_env("line 0\n"), log_env("line 1\n"), log_env("line 2\n")]);
    assert_eq!(a.log_index, 3);
    assert!(a.tick(&l).is_empty());
}

#[test]
fn admin_skips_old_backlog() {
    let l = logs(1500);
    let mut a = AdminClient::new();
    let out = a.tick(&l);
    assert_eq!(out.len(), 1000);
    assert_eq!(out[0], log_env("line 500\n"));
    assert_eq!(out[999], log_env("line 1499\n"));
    assert_eq!(a.log_index, 1500);
}

#[test]
fn admin_cursor_clamped_to_log() {
    let l = logs(4);
    let mut a = AdminClient { log_index: 10, has_ui: false };
    assert!(a.tick(&l).is_empty());
    assert_eq!(a.log_index, 4);
    let mut b = AdminClient { log_index: 2, has_ui: false };
    assert_eq!(b.tick(&l), vec![log_env("line 2\n"), log_env("line 3\n")]);
}

#[test]
fn admin_receives_ui_once() {
    let mut a = AdminClient::new();
    assert_eq!(a.ui_update(""), None);
    assert_eq!(a.ui_update("<ui>"), Some("{\"message\":\"<ui>\",\"target\":\"settings/ui\"}".to_string()));
    assert_eq!(a.ui_update("<ui>"), None);
}

fn tokens() -> Tokens {
    let mut t = Tokens::new();
    t.add(Role::User, "abc".to_string());
    t
}

#[test]
fn handshake_rejections() {
    let t = tokens();
    let mut c = Connection::new((), "p".to_string());
    assert_eq!(c.http_request(&t, "POST", "/?token=abc").err(), Some(HandshakeError::MethodNotAllowed));
    assert_eq!(c.http_request(&t, "GET", "/").err(), Some(HandshakeError::Unauthorized));
    assert_eq!(c.http_request(&t, "GET", "/?token=abd").err(), Some(HandshakeError::Unauthorized));
    assert_eq!(c.http_request(&t, "GET", "/other?token=abc").err(), Some(HandshakeError::NotFound));
    assert_eq!(c.http_request(&t, "GET", "/admin?token=abc").err(), Some(HandshakeError::Unauthorized));
    assert!(c.cl.is_none());
}

#[test]
fn handshake_opens_web_session() {
    let t = tokens();
    let mut c = Connection::new((), "p".to_string());
    let props = c.http_request(&t, "GET", "/?token=abc&net.state!=1").unwrap();
    assert_eq!(props.get("net.state!").map(|s| s.as_str()), Some("1"));
    assert!(matches!(c.cl, Some(TheClient::Web(_))));
}

#[test]
fn handshake_default_admin() {
    let t = Tokens::new();
    let mut c = Connection::new((), "p".to_string());
    assert!(c.http_request(&t, "GET", "/admin?token=admin").is_ok());
    assert!(c.is_admin());
}

#[test]
fn web_login_command_scenario() {
    let t = tokens();
    let mut c = Connection::new((), "127.0.0.1:9000".to_string());
    assert!(c.http_request(&t, "GET", "/?token=abc").is_ok());
    match c.message(Frame::Text("net.login!".to_string())) {
        Reply::Command(path, args) => {
            assert_eq!(path, "net.login!");
            assert_eq!(args, None);
            if let Some(TheClient::Web(w)) = &mut c.cl {
                w.request_login();
            }
        }
        _ => panic!("expected a command"),
    }
    let out = c.session_tick(&Vec::new());
    assert_eq!(
        out,
        vec!["{\"message\":{\"addr\":\"127.0.0.1:9000\",\"role\":\"User\",\"name\":\"Anonymous\"},\"target\":\"auth/welcome\"}".to_string()]
    );
}

#[test]
fn frames_before_and_after_session() {
    let mut c = Connection::new((), "p".to_string());
    assert!(matches!(c.message(Frame::Text("x".to_string())), Reply::Nothing));
    assert!(matches!(c.message(Frame::Binary(vec![1])), Reply::Nothing));
    assert!(matches!(c.message(Frame::Pong(vec![])), Reply::Nothing));
    match c.message(Frame::Ping(vec![7, 8])) {
        Reply::Pong(p) => assert_eq!(p, vec![7, 8]),
        _ => panic!("expected a pong"),
    }
    assert!(!c.closing);
    match c.message(Frame::Close(1000, "bye".to_string())) {
        Reply::Close(code, reason) => {
            assert_eq!(code, 1000);
            assert_eq!(reason, "bye");
        }
        _ => panic!("expected a close"),
    }
    assert!(c.closing);
}

#[test]
fn command_with_args() {
    let t = Tokens::new();
    let mut c = Connection::new((), "p".to_string());
    assert!(c.http_request(&t, "GET", "/admin?token=admin").is_ok());
    match c.message(Frame::Text("  cvar.set   a b  ".to_string())) {
        Reply::Command(path, args) => {
            assert_eq!(path, "cvar.set");
            assert_eq!(args.as_deref(), Some("a b"));
        }
        _ => panic!("expected a command"),
    }
    assert_eq!(command_output(""), None);
    assert_eq!(command_output("ok\n"), Some(log_env("ok\n")));
}

#[test]
fn transport_outcomes_close() {
    let mut c = Connection::new((), "p".to_string());
    c.on_recv(RecvOutcome::Received(5));
    c.on_recv(RecvOutcome::WouldBlock);
    c.on_send(SendOutcome::Sent);
    c.on_send(SendOutcome::WouldBlock);
    assert!(!c.closing);
    c.on_recv(RecvOutcome::Received(0));
    assert!(c.closing);
    let mut d = Connection::new((), "p".to_string());
    d.on_recv(RecvOutcome::Failed);
    assert!(d.closing);
    let mut e = Connection::new((), "p".to_string());
    e.on_send(SendOutcome::Failed);
    assert!(e.closing);
    let mut f = Connection::new((), "p".to_string());
    f.on_decode_error();
    assert!(f.closing);
}
