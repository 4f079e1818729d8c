//! Sessions and the per-connection protocol state machine.
//!
//! The caller owns the socket and the WebSocket framing. Each tick it
//! reports to its [`Connection`] what the transport did, hands over each
//! decoded frame, and sends what the connection gives back.

use vstd::prelude::*;
use vstd::string::*;
use crate::message::{json_text, text_envelope, text_envelope_of, envelope, envelope_of, json_string_of, welcome_json_of, Welcome};
use crate::query::{scan_char, load_props, Props, props_map, query_pairs, scan_to};
use crate::text::{split_line, split_line_of, str_eq};
use crate::tokens::{Role, Tokens, TokensView};

verus! {

/// The most log lines an Admin session is sent in one pass; older unsent
/// lines are skipped.
pub const MAX_LOG_LINES: usize = 1000;

/// The target of console output.
pub open spec fn console_log_target() -> Seq<char> {
    "console/log"@
}

/// The session of a Web client: two edge-triggered requests.
pub struct WebClient {
    pub update: bool,
    pub login: bool,
}

/// The envelope that welcomes a Web client from `addr`.
pub open spec fn welcome_envelope_of(addr: Seq<char>) -> Seq<char> {
    envelope_of(welcome_json_of(addr, Role::User, "Anonymous"@), json_string_of("auth/welcome"@))
}

impl WebClient {
    pub fn new() -> (r: WebClient)
        ensures
            !r.update,
            !r.login,
    {
        WebClient { update: false, login: false }
    }

    /// The `net.state!` action.
    pub fn request_state(&mut self)
        ensures
            final(self).update,
            final(self).login == old(self).login,
    {
        self.update = true;
    }

    /// The `net.login!` action.
    pub fn request_login(&mut self)
        ensures
            final(self).login,
            final(self).update == old(self).update,
    {
        self.login = true;
    }

    /// One outgoing pass: a pending login request is answered with a
    /// welcome to the anonymous User at `addr`, and cleared.
    pub fn tick(&mut self, addr: &str) -> (r: Option<String>)
        ensures
            r is Some == old(self).login,
            r is Some ==> r->Some_0@ == welcome_envelope_of(addr@),
            !final(self).login,
            final(self).update == old(self).update,
    {
        if self.login {
            self.login = false;
            let welcome = Welcome {
                addr: addr.to_owned(),
                role: Role::User,
                name: String::from_str("Anonymous"),
            };
            let target = json_text("auth/welcome");
            Some(envelope(welcome.to_json().as_str(), target.as_str()))
        } else {
            None
        }
    }
}

/// Where an Admin session's log streaming starts, given the log's length and
/// the session's cursor: the cursor clamped to the log, moved up so that at
/// most [`MAX_LOG_LINES`] lines are left.
pub open spec fn log_start(len: int, cursor: int) -> int {
    let c = if cursor > len { len } else { cursor };
    if len - c > MAX_LOG_LINES { len - MAX_LOG_LINES } else { c }
}

/// Where log streaming starts is `min(L, max(C, L - MAX_LOG_LINES))` for a
/// log of length `L` and a cursor `C`; it never passes the log's end and
/// leaves at most [`MAX_LOG_LINES`] lines to send.
pub proof fn lemma_log_start(len: nat, cursor: nat)
    ensures
        log_start(len as int, cursor as int) == vstd::math::min(
            len as int,
            vstd::math::max(cursor as int, len - MAX_LOG_LINES),
        ),
        0 <= log_start(len as int, cursor as int) <= len,
        len - log_start(len as int, cursor as int) <= MAX_LOG_LINES,
{
}

/// The session of an Admin client: its cursor into the server's log, and
/// whether it holds the current settings UI.
pub struct AdminClient {
    pub log_index: usize,
    pub has_ui: bool,
}

impl AdminClient {
    pub fn new() -> (r: AdminClient)
        ensures
            r.log_index == 0,
            !r.has_ui,
    {
        AdminClient { log_index: 0, has_ui: false }
    }

    /// One outgoing pass of log streaming: the envelopes of the log lines
    /// from [`log_start`] to the end, in order; the cursor moves to the end.
    pub fn tick(&mut self, logs: &Vec<String>) -> (r: Vec<String>)
        ensures
            final(self).log_index == logs.len(),
            final(self).has_ui == old(self).has_ui,
            r.len() == logs.len() - log_start(logs.len() as int, old(self).log_index as int),
            forall|i: int|
                0 <= i < r.len() ==> #[trigger] r[i]@ == text_envelope_of(
                    console_log_target(),
                    logs[log_start(logs.len() as int, old(self).log_index as int) + i]@,
                ),
    {
        if self.log_index > logs.len() {
            self.log_index = logs.len();
        }
        if logs.len() - self.log_index > MAX_LOG_LINES {
            self.log_index = logs.len() - MAX_LOG_LINES;
        }
        let start = self.log_index;
        let mut out: Vec<String> = Vec::new();
        while self.log_index < logs.len()
            invariant
                start <= self.log_index <= logs.len(),
                start == log_start(logs.len() as int, old(self).log_index as int),
                self.has_ui == old(self).has_ui,
                out.len() == self.log_index - start,
                forall|i: int|
                    0 <= i < out.len() ==> #[trigger] out[i]@ == text_envelope_of(
                        console_log_target(),
                        logs[start + i]@,
                    ),
            decreases logs.len() - self.log_index,
        {
            out.push(text_envelope("console/log", logs[self.log_index].as_str()));
            self.log_index = self.log_index + 1;
        }
        out
    }

    /// Delivers the published settings UI once: where one is published and
    /// this session does not hold it yet.
    pub fn ui_update(&mut self, ui: &str) -> (r: Option<String>)
        ensures
            r is Some == (ui@.len() > 0 && !old(self).has_ui),
            r is Some ==> r->Some_0@ == text_envelope_of("settings/ui"@, ui@),
            final(self).has_ui == (old(self).has_ui || ui@.len() > 0),
            final(self).log_index == old(self).log_index,
    {
        if ui.unicode_len() > 0 && !self.has_ui {
            self.has_ui = true;
            Some(text_envelope("settings/ui", ui))
        } else {
            None
        }
    }
}

/// The session of an authenticated connection.
pub enum TheClient {
    Web(WebClient),
    Admin(AdminClient),
}

/// What a non-blocking receive did.
pub enum RecvOutcome {
    /// This many bytes were read; zero means the peer closed its side.
    Received(usize),
    WouldBlock,
    Failed,
}

/// What a non-blocking flush did.
pub enum SendOutcome {
    Sent,
    WouldBlock,
    Failed,
}

/// Why a handshake was rejected.
#[derive(Clone, Copy, Debug, PartialEq, Eq, Structural)]
pub enum HandshakeError {
    MethodNotAllowed,
    Unauthorized,
    NotFound,
}

/// A decoded application frame.
pub enum Frame {
    Text(String),
    Binary(Vec<u8>),
    Close(u16, String),
    Ping(Vec<u8>),
    Pong(Vec<u8>),
}

/// What the connection asks its caller to do about a frame.
pub enum Reply {
    Nothing,
    /// Invoke `path` with its arguments on the session's console tree.
    Command(String, Option<String>),
    /// Acknowledge a close with the same code and reason.
    Close(u16, String),
    /// Answer a ping with the same payload.
    Pong(Vec<u8>),
}

/// The part of a URI before its first `?`.
pub open spec fn resource_of(uri: Seq<char>) -> Seq<char> {
    uri.subrange(0, scan_to(uri, '?', 0))
}

/// The part of a URI after its first `?`, empty where it has none.
pub open spec fn query_of(uri: Seq<char>) -> Seq<char> {
    let p = scan_to(uri, '?', 0);
    if p < uri.len() { uri.subrange(p + 1, uri.len() as int) } else { seq![] }
}

pub open spec fn token_key() -> Seq<char> {
    "token"@
}

/// The outcome of a handshake: the role of the session it opens, or why it
/// is rejected.
pub open spec fn handshake_of(tokens: TokensView, method: Seq<char>, uri: Seq<char>) -> Result<
    Role,
    HandshakeError,
> {
    let props = props_map(query_pairs(query_of(uri)));
    let resource = resource_of(uri);
    if method != "GET"@ {
        Err(HandshakeError::MethodNotAllowed)
    } else if !props.contains_key(token_key()) {
        Err(HandshakeError::Unauthorized)
    } else if resource == "/"@ {
        if tokens.accepts_web(props[token_key()]) {
            Ok(Role::User)
        } else {
            Err(HandshakeError::Unauthorized)
        }
    } else if resource == "/admin"@ {
        if tokens.accepts_admin(props[token_key()]) {
            Ok(Role::Admin)
        } else {
            Err(HandshakeError::Unauthorized)
        }
    } else {
        Err(HandshakeError::NotFound)
    }
}

/// Whether `cl` holds a fresh session for `role`.
pub open spec fn fresh_session(cl: Option<TheClient>, role: Role) -> bool {
    match role {
        Role::User => cl matches Some(TheClient::Web(w)) && !w.update && !w.login,
        Role::Admin => cl matches Some(TheClient::Admin(a)) && a.log_index == 0 && !a.has_ui,
    }
}

/// The console output of a command, as the envelope sent back, if any was
/// written.
pub fn command_output(response: &str) -> (r: Option<String>)
    ensures
        r is Some == (response@.len() > 0),
        r is Some ==> r->Some_0@ == text_envelope_of(console_log_target(), response@),
{
    if response.unicode_len() > 0 {
        Some(text_envelope("console/log", response))
    } else {
        None
    }
}

/// One accepted socket: its transport `io`, the peer address, whether it is
/// closing, and its session once the handshake succeeded.
pub struct Connection<T> {
    pub io: T,
    pub addr: String,
    pub closing: bool,
    pub cl: Option<TheClient>,
}

impl<T> Connection<T> {
    pub fn new(io: T, addr: String) -> (r: Connection<T>)
        ensures
            r.io == io,
            r.addr == addr,
            !r.closing,
            r.cl is None,
    {
        Connection { io, addr, closing: false, cl: None }
    }

    /// Whether the session is an Admin one.
    pub fn is_admin(&self) -> (r: bool)
        ensures
            r == (self.cl matches Some(TheClient::Admin(_))),
    {
        match &self.cl {
            Some(TheClient::Admin(_)) => true,
            _ => false,
        }
    }

    /// A receive that read nothing or failed other than by blocking closes
    /// the connection.
    pub fn on_recv(&mut self, outcome: RecvOutcome)
        ensures
            final(self).closing == (old(self).closing || outcome matches RecvOutcome::Received(0)
                || outcome is Failed),
            final(self).cl == old(self).cl,
            final(self).addr == old(self).addr,
    {
        match outcome {
            RecvOutcome::Received(n) => {
                if n == 0 {
                    self.closing = true;
                }
            },
            RecvOutcome::WouldBlock => {},
            RecvOutcome::Failed => {
                self.closing = true;
            },
        }
    }

    /// A malformed frame closes the connection.
    pub fn on_decode_error(&mut self)
        ensures
            final(self).closing,
            final(self).cl == old(self).cl,
            final(self).addr == old(self).addr,
    {
        self.closing = true;
    }

    /// A flush that failed other than by blocking closes the connection.
    pub fn on_send(&mut self, outcome: SendOutcome)
        ensures
            final(self).closing == (old(self).closing || outcome is Failed),
            final(self).cl == old(self).cl,
            final(self).addr == old(self).addr,
    {
        if let SendOutcome::Failed = outcome {
            self.closing = true;
        }
    }

    /// The handshake: checks the method, the token and the resource, and
    /// opens the session. On success the query's properties are returned,
    /// for the caller to apply to the session's console tree.
    pub fn http_request(&mut self, tokens: &Tokens, method: &str, uri: &str) -> (r: Result<
        Props,
        HandshakeError,
    >)
        ensures
            r is Ok == handshake_of(tokens@, method@, uri@) is Ok,
            r is Err ==> r == Err::<Props, _>(handshake_of(tokens@, method@, uri@)->Err_0),
            r is Err ==> final(self).cl == old(self).cl,
            r is Ok ==> fresh_session(final(self).cl, handshake_of(tokens@, method@, uri@)->Ok_0),
            r is Ok ==> r->Ok_0.pairs() == query_pairs(query_of(uri@)),
            final(self).closing == old(self).closing,
            final(self).addr == old(self).addr,
    {
        proof {
            reveal_strlit("GET");
        }
        if !str_eq(method, "GET") {
            return Err(HandshakeError::MethodNotAllowed);
        }
        let n = uri.unicode_len();
        let pos = scan_char(uri, n, '?', 0);
        let resource = uri.substring_char(0, pos);
        let query = if pos < n {
            uri.substring_char(pos + 1, n)
        } else {
            ""
        };
        proof {
            reveal_strlit("");
            assert(query@ =~= query_of(uri@));
        }
        let mut props = Props::new();
        load_props(&mut props, query);
        assert(props.pairs() =~= query_pairs(query_of(uri@)));
        let token = match props.get("token") {
            Some(t) => t,
            None => {
                return Err(HandshakeError::Unauthorized);
            },
        };
        if str_eq(resource, "/") {
            if !tokens.is_web_token(token.as_str()) {
                return Err(HandshakeError::Unauthorized);
            }
            self.cl = Some(TheClient::Web(WebClient::new()));
        } else if str_eq(resource, "/admin") {
            if !tokens.is_admin_token(token.as_str()) {
                return Err(HandshakeError::Unauthorized);
            }
            self.cl = Some(TheClient::Admin(AdminClient::new()));
        } else {
            return Err(HandshakeError::NotFound);
        }
        Ok(props)
    }

    /// Handles one decoded frame. Text is a command for the session's
    /// console tree, once a session is open; a close marks the connection
    /// closing and is acknowledged; a ping is answered.
    pub fn message(&mut self, frame: Frame) -> (r: Reply)
        ensures
            final(self).cl == old(self).cl,
            final(self).addr == old(self).addr,
            final(self).closing == (old(self).closing || frame is Close),
            match frame {
                Frame::Text(t) => match r {
                    Reply::Command(path, args) => old(self).cl is Some && path@ == split_line_of(
                        t@,
                    ).0 && (args is Some == split_line_of(t@).1 is Some) && (args is Some
                        ==> args->Some_0@ == split_line_of(t@).1->Some_0),
                    Reply::Nothing => old(self).cl is None,
                    _ => false,
                },
                Frame::Close(code, reason) => r == Reply::Close(code, reason),
                Frame::Ping(p) => r == Reply::Pong(p),
                _ => r is Nothing,
            },
    {
        match frame {
            Frame::Text(text) => {
                if self.cl.is_none() {
                    return Reply::Nothing;
                }
                let (path, args) = split_line(text.as_str());
                let args = match args {
                    Some(a) => Some(a.to_owned()),
                    None => None,
                };
                Reply::Command(path.to_owned(), args)
            },
            Frame::Binary(_) => Reply::Nothing,
            Frame::Close(code, reason) => {
                self.closing = true;
                Reply::Close(code, reason)
            },
            Frame::Ping(payload) => Reply::Pong(payload),
            Frame::Pong(_) => Reply::Nothing,
        }
    }

    /// The session's periodic output, for a pass where the transport can
    /// take more data.
    pub fn session_tick(&mut self, logs: &Vec<String>) -> (r: Vec<String>)
        ensures
            final(self).closing == old(self).closing,
            final(self).addr == old(self).addr,
            final(self).cl is Some == old(self).cl is Some,
            old(self).cl is None ==> r.len() == 0,
            match old(self).cl {
                Some(TheClient::Web(w)) => final(self).cl matches Some(TheClient::Web(w2)) && !w2.login
                    && w2.update == w.update && (w.login ==> r.len() == 1 && r[0]@
                    == welcome_envelope_of(old(self).addr@)) && (!w.login ==> r.len() == 0),
                Some(TheClient::Admin(a)) => final(self).cl matches Some(TheClient::Admin(a2))
                    && a2.log_index == logs.len() && a2.has_ui == a.has_ui && r.len() == logs.len()
                    - log_start(logs.len() as int, a.log_index as int) && forall|i: int|
                    0 <= i < r.len() ==> #[trigger] r[i]@ == text_envelope_of(
                        console_log_target(),
                        logs[log_start(logs.len() as int, a.log_index as int) + i]@,
                    ),
                None => true,
            },
    {
        match &mut self.cl {
            Some(TheClient::Web(web)) => {
                let mut out: Vec<String> = Vec::new();
                if let Some(text) = web.tick(self.addr.as_str()) {
                    out.push(text);
                }
                out
            },
            Some(TheClient::Admin(admin)) => admin.tick(logs),
            None => Vec::new(),
        }
    }

    /// Delivers the published settings UI to an Admin session that does not
    /// hold it yet.
    pub fn ui_tick(&mut self, ui: &str) -> (r: Option<String>)
        ensures
            final(self).closing == old(self).closing,
            final(self).addr == old(self).addr,
            match old(self).cl {
                Some(TheClient::Admin(a)) => final(self).cl matches Some(TheClient::Admin(a2))
                    && a2.log_index == a.log_index && a2.has_ui == (a.has_ui || ui@.len() > 0) && (
                r is Some == (ui@.len() > 0 && !a.has_ui)) && (r is Some ==> r->Some_0@
                    == text_envelope_of("settings/ui"@, ui@)),
                _ => final(self).cl == old(self).cl && r is None,
            },
    {
        match &mut self.cl {
            Some(TheClient::Admin(admin)) => admin.ui_update(ui),
            _ => None,
        }
    }
}

} // verus!
