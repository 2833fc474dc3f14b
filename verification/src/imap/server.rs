//! What a server does around the dispatcher: the addresses it listens on,
//! the line it greets with, and the reading of each line of a client.

use vstd::prelude::*;
use vstd::string::StringExecFns;
use crate::config::{ips_view, listen_addresses, listen_on, Config, IMAP_PORT};
use crate::imap::command::{
    command_of, parse_command, tagged, tagged_reply, CommandData, CommandView, ParseError,
    ParseErrorView,
};
use crate::imap::dispatch::{greeting, greeting_line};
use crate::imap::state::{ConnectionView, Data};
use crate::reply::{Action, Reply};

verus! {

/// The answer to a line that is no command: tagged, where the line has a
/// tag, and untagged, where it has none.
pub open spec fn refusal_lines(error: ParseErrorView) -> Seq<Seq<char>> {
    match error {
        ParseErrorView::BadTag => seq!["* BAD Unable to parse"@],
        ParseErrorView::MissingCommand(tag) => seq![tagged(tag, "BAD Unable to parse"@)],
        ParseErrorView::UnknownCommand(tag) => seq![tagged(tag, "BAD Unknown command"@)],
        ParseErrorView::EmptyArgument(tag) => seq![tagged(tag, "BAD Unable to parse"@)],
    }
}

/// What reading a line gives: the command, or the lines that refuse the
/// line.
pub open spec fn read_line(line: Seq<char>) -> Result<CommandView, Seq<Seq<char>>> {
    match command_of(line) {
        Ok(command) => Ok(command),
        Err(error) => Err(refusal_lines(error)),
    }
}

/// What the outcome of reading a line stands for.
pub open spec fn read_view(r: Result<CommandData, Reply>) -> Result<CommandView, Seq<Seq<char>>> {
    match r {
        Ok(command) => Ok(command@),
        Err(reply) => Err(reply.lines.deep_view()),
    }
}

/// The answer to a line that is no command.
pub fn refusal(error: &ParseError) -> (reply: Reply)
    ensures
        reply.lines.deep_view() == refusal_lines(error@),
        reply.action == Action::Continue,
{
    let lines = match error {
        ParseError::BadTag => {
            let mut lines: Vec<String> = Vec::new();
            lines.push(String::from_str("* BAD Unable to parse"));
            assert(lines.deep_view() =~= seq!["* BAD Unable to parse"@]);
            lines
        },
        ParseError::MissingCommand(tag) => tagged_reply(tag, "BAD Unable to parse"),
        ParseError::UnknownCommand(tag) => tagged_reply(tag, "BAD Unknown command"),
        ParseError::EmptyArgument(tag) => tagged_reply(tag, "BAD Unable to parse"),
    };
    Reply { lines, action: Action::Continue }
}

/// The IMAP server on the port without TLS.
pub struct Unencrypted;

impl Unencrypted {
    /// The socket addresses that the server listens on.
    pub fn addresses(config: &Config) -> (r: Vec<String>)
        ensures
            r.deep_view() == listen_on(ips_view(config.listen_ips), IMAP_PORT),
    {
        listen_addresses(config, IMAP_PORT)
    }

    /// The record and the greeting of a connection that was just accepted.
    pub fn accept(config: &Config) -> (r: (Data, String))
        ensures
            r.0.con_state@ == ConnectionView::fresh(false),
            r.1@ == greeting_line(false, config.allow_plaintext),
    {
        (Data::new(false), greeting(false, config.allow_plaintext))
    }

    /// Reads a line of a client: the command that it spells, or the answer
    /// that refuses it. The session goes on either way.
    pub fn read(line: &str) -> (r: Result<CommandData, Reply>)
        ensures
            read_view(r) == read_line(line@),
            r matches Err(reply) ==> reply.action == Action::Continue,
    {
        match parse_command(line) {
            Ok(command) => Ok(command),
            Err(error) => Err(refusal(&error)),
        }
    }
}

} // verus!
