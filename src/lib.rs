//! EctoWS: an embeddable control-plane server core.
//!
//! The library holds the decisions of the server: the token gate, the
//! query and command line parsing, the per-connection state machine, the
//! session behaviour and the JSON envelopes sent to remote operators. The
//! sockets and the WebSocket framing are driven by the caller.

use vstd::prelude::*;

pub mod client;
pub mod message;
pub mod query;
pub mod server;
pub mod text;
pub mod tokens;

pub use server::Server;
pub use tokens::{Role, Tokens, TokensView};
