//! The server's state: its connections, tokens, log and settings UI.
//!
//! The caller owns the listener and runs the tick: it accepts sockets into
//! [`Server::accept`], drives each [`Connection`], and calls
//! [`Server::sweep`] last.

use vstd::prelude::*;
use vstd::string::*;
use crate::client::{Connection, TheClient, AdminClient};
use crate::message::{envelope_of, json_string_of, visualizer_json_of, json_text, envelope, Visualizer};
use crate::tokens::{Role, Tokens, TokensView};

verus! {

/// A logged line: the text with a newline added where it does not end in one.
pub open spec fn log_line_of(content: Seq<char>) -> Seq<char> {
    if content.len() > 0 && content.last() == '\n' {
        content
    } else {
        content.push('\n')
    }
}

/// The connections that are not closing, in order.
pub open spec fn open_connections<T>(s: Seq<Connection<T>>) -> Seq<Connection<T>>
    decreases s.len(),
{
    if s.len() == 0 {
        s
    } else if s[0].closing {
        open_connections(s.drop_first())
    } else {
        seq![s[0]] + open_connections(s.drop_first())
    }
}

/// A session after a new settings UI was published: an Admin session no
/// longer holds the UI.
pub open spec fn ui_reset(cl: Option<TheClient>) -> Option<TheClient> {
    match cl {
        Some(TheClient::Admin(a)) => Some(
            TheClient::Admin(AdminClient { log_index: a.log_index, has_ui: false }),
        ),
        _ => cl,
    }
}

/// The line logged when no Admin token is set.
pub open spec fn insecure_warning() -> Seq<char> {
    "WARNING: No admin tokens set, accepting default 'admin' token.\n"@
}

/// The server. `T` is the caller's transport for one connection.
pub struct Server<T> {
    pub connections: Vec<Connection<T>>,
    pub count: usize,
    pub tokens: Tokens,
    pub settingsui: String,
    pub logs: Vec<String>,
}

impl<T> Server<T> {
    /// A server with no connection, token, log line or settings UI.
    pub fn new() -> (r: Server<T>)
        ensures
            r.connections@.len() == 0,
            r.count == 0,
            r.tokens@ == TokensView::empty(),
            r.settingsui@.len() == 0,
            r.logs@.len() == 0,
    {
        Server {
            connections: Vec::new(),
            count: 0,
            tokens: Tokens::new(),
            settingsui: String::new(),
            logs: Vec::new(),
        }
    }

    /// Adds a token to the server.
    pub fn add_token(&mut self, role: Role, token: String)
        ensures
            final(self).tokens@ == old(self).tokens@.added(role, token@),
            final(self).connections == old(self).connections,
            final(self).logs == old(self).logs,
            final(self).settingsui == old(self).settingsui,
            final(self).count == old(self).count,
    {
        self.tokens.add(role, token);
    }

    /// Logs a message: the line, ending in a newline, is appended to the log
    /// and returned for the caller to print.
    pub fn log(&mut self, content: &str) -> (r: String)
        ensures
            r@ == log_line_of(content@),
            final(self).logs@.len() == old(self).logs@.len() + 1,
            forall|i: int| 0 <= i < old(self).logs@.len() ==> final(self).logs@[i] == old(self).logs@[i],
            final(self).logs@.last()@ == log_line_of(content@),
            final(self).connections == old(self).connections,
            final(self).tokens == old(self).tokens,
            final(self).settingsui == old(self).settingsui,
            final(self).count == old(self).count,
    {
        let mut line = content.to_owned();
        let n = content.unicode_len();
        if n == 0 || content.get_char(n - 1) != '\n' {
            line.append("\n");
            proof {
                reveal_strlit("\n");
                assert(line@ =~= content@.push('\n'));
            }
        }
        self.logs.push(line.clone());
        line
    }

    /// Logs the insecure-configuration warning when the token store asks
    /// for it; returns the line logged.
    pub fn warn_insecure(&mut self) -> (r: Option<String>)
        ensures
            r is Some == old(self).tokens@.warns(),
            final(self).tokens@ == old(self).tokens@.checked(),
            r is Some ==> r->Some_0@ == insecure_warning() && final(self).logs@ == old(
                self,
            ).logs@.push(final(self).logs@.last()) && final(self).logs@.last()@ == insecure_warning(),
            r is None ==> final(self).logs == old(self).logs,
            final(self).connections == old(self).connections,
            final(self).count == old(self).count,
    {
        if self.tokens.check_warn_insecure() {
            proof {
                reveal_strlit("WARNING: No admin tokens set, accepting default 'admin' token.\n");
            }
            let line = self.log("WARNING: No admin tokens set, accepting default 'admin' token.\n");
            proof {
                assert(final(self).logs@ =~= old(self).logs@.push(final(self).logs@.last()));
            }
            Some(line)
        } else {
            None
        }
    }

    /// Takes an accepted socket: logs `<addr> connected` and adds a new
    /// connection; returns the line logged.
    pub fn accept(&mut self, io: T, addr: String) -> (r: String)
        ensures
            final(self).connections@ == old(self).connections@.push(
                Connection { io, addr, closing: false, cl: None },
            ),
            r@ == log_line_of(addr@ + " connected"@),
            final(self).logs@.len() == old(self).logs@.len() + 1,
            forall|i: int| 0 <= i < old(self).logs@.len() ==> final(self).logs@[i] == old(self).logs@[i],
            final(self).logs@.last()@ == r@,
            final(self).settingsui == old(self).settingsui,
            final(self).count == if old(self).count < usize::MAX {
                old(self).count + 1
            } else {
                old(self).count as int
            },
            final(self).tokens == old(self).tokens,
    {
        let mut text = addr.clone();
        text.append(" connected");
        let line = self.log(text.as_str());
        self.connections.push(Connection::new(io, addr));
        self.count_accept();
        line
    }

    /// Counts a socket that was accepted and then dropped.
    pub fn count_accept(&mut self)
        ensures
            final(self).count == if old(self).count < usize::MAX {
                old(self).count + 1
            } else {
                old(self).count as int
            },
            final(self).connections == old(self).connections,
            final(self).logs == old(self).logs,
            final(self).tokens == old(self).tokens,
            final(self).settingsui == old(self).settingsui,
    {
        if self.count < usize::MAX {
            self.count = self.count + 1;
        }
    }

    /// The `debug/write` envelope of `content` in `scope`, for the caller to
    /// send to every Admin connection that can take data now.
    pub fn visualize(&self, scope: &str, content: &str) -> (r: String)
        ensures
            r@ == envelope_of(visualizer_json_of(scope@, content@), json_string_of("debug/write"@)),
    {
        let v = Visualizer { scope: scope.to_owned(), content: content.to_owned() };
        let target = json_text("debug/write");
        envelope(v.to_json().as_str(), target.as_str())
    }

    /// Publishes the settings UI: it replaces the previous one, and every
    /// Admin session is to receive it again.
    pub fn settingsui(&mut self, ui: &str)
        ensures
            final(self).settingsui@ == ui@,
            final(self).connections@.len() == old(self).connections@.len(),
            forall|i: int|
                0 <= i < old(self).connections@.len() ==> #[trigger] final(self).connections@[i]
                    == (Connection {
                    cl: ui_reset(old(self).connections@[i].cl),
                    ..old(self).connections@[i]
                }),
            final(self).logs == old(self).logs,
            final(self).tokens == old(self).tokens,
            final(self).count == old(self).count,
    {
        self.settingsui = ui.to_owned();
        let n = self.connections.len();
        let mut i: usize = 0;
        while i < n
            invariant
                n == self.connections@.len(),
                n == old(self).connections@.len(),
                i <= n,
                self.logs == old(self).logs,
                self.tokens == old(self).tokens,
                self.count == old(self).count,
                self.settingsui@ == ui@,
                forall|j: int|
                    0 <= j < i ==> #[trigger] self.connections@[j] == (Connection {
                        cl: ui_reset(old(self).connections@[j].cl),
                        ..old(self).connections@[j]
                    }),
                forall|j: int| i <= j < n ==> #[trigger] self.connections@[j] == old(self).connections@[j],
            decreases n - i,
        {
            if let Some(TheClient::Admin(admin)) = &mut self.connections[i].cl {
                admin.has_ui = false;
            }
            i = i + 1;
        }
    }

    /// Drops every connection that is closing, keeping the others in order.
    pub fn sweep(&mut self)
        ensures
            final(self).connections@ == open_connections(old(self).connections@),
            final(self).logs == old(self).logs,
            final(self).tokens == old(self).tokens,
            final(self).settingsui == old(self).settingsui,
            final(self).count == old(self).count,
    {
        let ghost all = self.connections@;
        let n = self.connections.len();
        let mut i = n;
        proof {
            assert(all.subrange(i as int, n as int) =~= seq![]);
            assert(all.subrange(0, i as int) + open_connections(all.subrange(i as int, n as int))
                =~= all);
        }
        while i > 0
            invariant
                n == all.len(),
                i <= n,
                self.connections@ == all.subrange(0, i as int) + open_connections(
                    all.subrange(i as int, n as int),
                ),
                self.logs == old(self).logs,
                self.tokens == old(self).tokens,
                self.settingsui == old(self).settingsui,
                self.count == old(self).count,
            decreases i,
        {
            let ghost rest = open_connections(all.subrange(i as int, n as int));
            proof {
                assert(all.subrange(i - 1, n as int).drop_first() =~= all.subrange(i as int, n as int));
                assert(self.connections@[i - 1] == all[i - 1]);
            }
            if self.connections[i - 1].closing {
                self.connections.remove(i - 1);
                proof {
                    assert(self.connections@ =~= all.subrange(0, i - 1) + rest);
                }
            } else {
                proof {
                    assert(all.subrange(0, i as int) + rest =~= all.subrange(0, i - 1) + (seq![all[i - 1]]
                        + rest));
                }
            }
            i = i - 1;
        }
        proof {
            assert(all.subrange(0, 0) + open_connections(all) =~= open_connections(all));
            assert(all.subrange(0, n as int) =~= all);
        }
    }
}

/// After a sweep no connection is closing, and every connection that was
/// not closing is still there.
pub proof fn lemma_sweep_drops_closing<T>(s: Seq<Connection<T>>)
    ensures
        forall|j: int| 0 <= j < open_connections(s).len() ==> !(#[trigger] open_connections(s)[j]).closing,
        forall|j: int| 0 <= j < s.len() && !(#[trigger] s[j]).closing ==> open_connections(s).contains(s[j]),
        forall|j: int| 0 <= j < open_connections(s).len() ==> s.contains(#[trigger] open_connections(s)[j]),
    decreases s.len(),
{
    if s.len() > 0 {
        let t = s.drop_first();
        lemma_sweep_drops_closing(t);
        let o = open_connections(s);
        let ot = open_connections(t);
        assert forall|j: int| 0 <= j < s.len() && !(#[trigger] s[j]).closing implies o.contains(s[j]) by {
            if j == 0 {
                assert(o[0] == s[0]);
            } else {
                assert(t[j - 1] == s[j]);
                let k = choose|k: int| 0 <= k < ot.len() && ot[k] == s[j];
                if !s[0].closing {
                    assert(o[k + 1] == s[j]);
                }
            }
        }
        assert forall|j: int| 0 <= j < o.len() implies s.contains(#[trigger] o[j]) by {
            if s[0].closing {
                let k = choose|k: int| 0 <= k < t.len() && t[k] == ot[j];
                assert(s[k + 1] == o[j]);
            } else if j == 0 {
                assert(s[0] == o[0]);
            } else {
                assert(o[j] == ot[j - 1]);
                let k = choose|k: int| 0 <= k < t.len() && t[k] == ot[j - 1];
                assert(s[k + 1] == o[j]);
            }
        }
        assert forall|j: int| 0 <= j < o.len() implies !(#[trigger] o[j]).closing by {
            if !s[0].closing && j > 0 {
                assert(o[j] == ot[j - 1]);
            }
        }
    }
}

} // verus!
