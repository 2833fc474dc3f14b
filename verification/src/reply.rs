//! What a dispatcher hands back for a line of a client.

use vstd::prelude::*;

verus! {

/// What is to happen to the connection once the lines are sent.
#[derive(Clone, Copy, Debug, PartialEq, Eq, Structural)]
pub enum Action {
    Continue,
    Close,
    /// Negotiate TLS, then report the result to the session.
    Upgrade,
}

/// The answer to one command.
#[derive(Clone, Debug)]
pub struct Reply {
    pub lines: Vec<String>,
    pub action: Action,
}

} // verus!
