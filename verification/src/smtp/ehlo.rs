//! The EHLO command.

use vstd::prelude::*;
use vstd::string::StringExecFns;
use crate::smtp::command::{CommandData, CommandView, Commands};
use crate::smtp::state::{introduced, is_allowed, ConnectionView, Data};
use crate::text::single_line;

verus! {

/// The lines that answer EHLO: the host name of the server and the
/// extensions that it offers. STARTTLS is offered on a connection without
/// TLS, AUTH on one with TLS.
pub open spec fn ehlo_lines(hostname: Seq<char>, secure: bool) -> Seq<Seq<char>> {
    seq!["250-"@ + hostname, "250-ENHANCEDSTATUSCODES"@] + (if secure {
        seq!["250-AUTH LOGIN PLAIN"@]
    } else {
        seq!["250-STARTTLS"@]
    }) + seq!["250 SMTPUTF8"@]
}

/// Whether the command names the host of the client: its first argument is
/// there and is not empty.
pub open spec fn names_host(command: CommandView) -> bool {
    command.arguments.len() > 0 && command.arguments[0].len() > 0
}

/// Whether an EHLO command is accepted: it is in sequence and names a host.
pub open spec fn ehlo_accepted(con: ConnectionView, command: CommandView) -> bool {
    is_allowed(Commands::Ehlo, con.state) && names_host(command)
}

/// The lines that answer an EHLO command: 503 where it is out of sequence,
/// 501 where it names no host, else the extensions.
pub open spec fn ehlo_reply(con: ConnectionView, hostname: Seq<char>, command: CommandView) -> Seq<
    Seq<char>,
> {
    if !is_allowed(Commands::Ehlo, con.state) {
        seq!["503 Bad sequence of commands"@]
    } else if !names_host(command) {
        seq!["501 Syntax error in parameters or arguments"@]
    } else {
        ehlo_lines(hostname, con.secure)
    }
}

/// The session after an EHLO command: where the command is accepted, the
/// name of the client is recorded, no message is under way and the session
/// is idle; else the session is as it was.
pub open spec fn ehlo_session(con: ConnectionView, command: CommandView) -> ConnectionView {
    if ehlo_accepted(con, command) {
        introduced(con, command.arguments[0])
    } else {
        con
    }
}

/// The EHLO command of one connection.
pub struct Ehlo<'a> {
    pub data: &'a mut Data,
}

impl Ehlo<'_> {
    /// Answers an EHLO command for the server named `hostname`, and records
    /// the name of the client where the command is accepted. The session
    /// that is held is still the one that was handed in.
    pub fn exec(&mut self, hostname: &str, command_data: &CommandData) -> (lines: Vec<String>)
        ensures
            lines.deep_view() == ehlo_reply(old(self).data.con_state@, hostname@, command_data@),
            final(self).data.con_state@ == ehlo_session(
                old(self).data.con_state@,
                command_data@,
            ),
            *final(final(self).data) == *final(old(self).data),
    {
        if !self.data.is_legal(Commands::Ehlo) {
            return single_line("503 Bad sequence of commands");
        }
        if command_data.arguments.len() == 0 || command_data.arguments[0].as_str().is_empty() {
            return single_line("501 Syntax error in parameters or arguments");
        }
        let secure = self.data.con_state.secure;
        self.data.introduce(&command_data.arguments[0]);
        let mut lines: Vec<String> = Vec::new();
        let mut first = String::from_str("250-");
        first.append(hostname);
        lines.push(first);
        lines.push(String::from_str("250-ENHANCEDSTATUSCODES"));
        if !secure {
            lines.push(String::from_str("250-STARTTLS"));
        }
        if secure {
            lines.push(String::from_str("250-AUTH LOGIN PLAIN"));
        }
        lines.push(String::from_str("250 SMTPUTF8"));
        assert(lines.deep_view() =~= ehlo_lines(hostname@, secure));
        lines
    }
}

} // verus!
