//! The SMTP dispatcher: the exchange of one message after the other.

use vstd::prelude::*;
use vstd::string::StringExecFns;
use crate::config::Config;
use crate::reply::{Action, Reply};
use crate::sasl::{plain_credentials, read_plain, AuthOutcome, AuthView};
use crate::smtp::command::{
    address_of, command_of, parse_command, read_address, CommandData, CommandView, Commands,
};
use crate::smtp::ehlo::{ehlo_reply, ehlo_session, names_host, Ehlo};
use crate::smtp::state::{introduced, is_allowed, ConnectionView, Data, State};
use crate::text::{
    chars_of, copy_range, is_text, is_word, same_text, single_line, string_of, text_view,
};

verus! {

/// What a line needs from outside before it can be answered.
#[derive(Clone, Debug)]
pub enum Demand {
    Nothing,
    /// Whether mail for `address` is delivered here.
    Recipient { address: String },
    /// The verdict of the authentication backend.
    Verify { user: String, password: String },
    /// The delivery of the message of the session: its sender, recipients
    /// and lines as the record of the connection holds them.
    Deliver,
}

/// What a `Demand` stands for.
pub enum DemandView {
    Nothing,
    Recipient { address: Seq<char> },
    Verify { user: Seq<char>, password: Seq<char> },
    Deliver,
}

impl View for Demand {
    type V = DemandView;

    open spec fn view(&self) -> DemandView {
        match self {
            Demand::Nothing => DemandView::Nothing,
            Demand::Recipient { address } => DemandView::Recipient { address: address@ },
            Demand::Verify { user, password } => DemandView::Verify {
                user: user@,
                password: password@,
            },
            Demand::Deliver => DemandView::Deliver,
        }
    }
}

/// What came back from outside: whether the recipient is known, whether the
/// message was delivered, what the authentication backend said.
#[derive(Clone, Debug)]
pub enum Supply {
    Nothing,
    Recipient(bool),
    Delivered(bool),
    Verified(AuthOutcome),
}

/// What a `Supply` stands for.
pub enum SupplyView {
    Nothing,
    Recipient(bool),
    Delivered(bool),
    Verified(AuthView),
}

impl View for Supply {
    type V = SupplyView;

    open spec fn view(&self) -> SupplyView {
        match self {
            Supply::Nothing => SupplyView::Nothing,
            Supply::Recipient(known) => SupplyView::Recipient(*known),
            Supply::Delivered(done) => SupplyView::Delivered(*done),
            Supply::Verified(outcome) => SupplyView::Verified(outcome@),
        }
    }
}

/// An answer and the state that the connection is left in.
pub struct Outcome {
    pub con: ConnectionView,
    pub lines: Seq<Seq<char>>,
    pub action: Action,
}

/// The line that greets a client.
pub open spec fn greeting_line(hostname: Seq<char>) -> Seq<char> {
    "220 "@ + hostname + " ESMTP Service Ready"@
}

/// One line, and the connection as it was.
pub open spec fn say(con: ConnectionView, text: Seq<char>) -> Outcome {
    Outcome { con, lines: seq![text], action: Action::Continue }
}

/// The answer where what came back from outside is not what was asked for:
/// the connection is given up.
pub open spec fn bug(con: ConnectionView, hostname: Seq<char>) -> Outcome {
    Outcome {
        con: ConnectionView { state: State::Closed, ..con },
        lines: seq!["421 "@ + hostname + " Service not available, closing transmission channel"@],
        action: Action::Close,
    }
}

/// The recipient that a RCPT command names: an address that is not empty.
pub open spec fn recipient_of(command: CommandView) -> Option<Seq<char>> {
    match address_of("TO:"@, "TO:<"@, command.arguments) {
        Some(address) => if address.len() > 0 {
            Some(address)
        } else {
            None
        },
        None => None,
    }
}

/// The line without the dot that a sender puts before a line that begins
/// with one.
pub open spec fn unstuffed(line: Seq<char>) -> Seq<char> {
    if line.len() > 0 && line[0] == '.' {
        line.skip(1)
    } else {
        line
    }
}

/// The user and the password of an AUTH command: the mechanism is PLAIN and
/// its response stands in the command.
pub open spec fn auth_credentials(con: ConnectionView, command: CommandView, allow_plaintext: bool)
    -> Option<(Seq<char>, Seq<char>)> {
    if (con.secure || allow_plaintext) && command.arguments.len() == 2 && same_text(
        command.arguments[0],
        "PLAIN"@,
    ) {
        plain_credentials(command.arguments[1])
    } else {
        None
    }
}

/// The answer to an AUTH command. A user that the backend accepts is
/// recorded, and the session stays where it is.
pub open spec fn auth_outcome(
    con: ConnectionView,
    command: CommandView,
    supply: SupplyView,
    hostname: Seq<char>,
    allow_plaintext: bool,
) -> Outcome {
    if !(con.secure || allow_plaintext) {
        say(con, "530 Must issue a STARTTLS command first"@)
    } else if command.arguments.len() == 0 {
        say(con, "501 Syntax error in parameters or arguments"@)
    } else if !same_text(command.arguments[0], "PLAIN"@) {
        say(con, "504 Unrecognized authentication type"@)
    } else if command.arguments.len() != 2 || plain_credentials(command.arguments[1]) is None {
        say(con, "501 Syntax error in parameters or arguments"@)
    } else {
        match supply {
            SupplyView::Verified(AuthView::Accepted(identity)) => Outcome {
                con: ConnectionView { username: Some(identity), ..con },
                lines: seq!["235 Authentication successful"@],
                action: Action::Continue,
            },
            SupplyView::Verified(AuthView::BadCredentials) => say(
                con,
                "535 Authentication credentials invalid"@,
            ),
            SupplyView::Verified(AuthView::Unavailable) => say(
                con,
                "454 Temporary authentication failure"@,
            ),
            _ => bug(con, hostname),
        }
    }
}

/// The answer to a command.
pub open spec fn command_outcome(
    con: ConnectionView,
    command: CommandView,
    supply: SupplyView,
    hostname: Seq<char>,
    allow_plaintext: bool,
) -> Outcome {
    if !is_allowed(command.command, con.state) {
        say(con, "503 Bad sequence of commands"@)
    } else {
        match command.command {
            Commands::Ehlo => Outcome {
                con: ehlo_session(con, command),
                lines: ehlo_reply(con, hostname, command),
                action: Action::Continue,
            },
            Commands::Helo => if !names_host(command) {
                say(con, "501 Syntax error in parameters or arguments"@)
            } else {
                Outcome {
                    con: introduced(con, command.arguments[0]),
                    lines: seq!["250 "@ + hostname],
                    action: Action::Continue,
                }
            },
            Commands::Mail => match address_of("FROM:"@, "FROM:<"@, command.arguments) {
                Some(address) => Outcome {
                    con: ConnectionView { state: State::Mail, mail_from: Some(address), ..con },
                    lines: seq!["250 Ok"@],
                    action: Action::Continue,
                },
                None => say(con, "501 Syntax error in parameters or arguments"@),
            },
            Commands::Rcpt => match recipient_of(command) {
                Some(address) => match supply {
                    SupplyView::Recipient(true) => Outcome {
                        con: ConnectionView {
                            state: State::Rcpt,
                            rcpt_to: con.rcpt_to.push(address),
                            ..con
                        },
                        lines: seq!["250 Ok"@],
                        action: Action::Continue,
                    },
                    SupplyView::Recipient(false) => say(con, "550 No such user here"@),
                    _ => bug(con, hostname),
                },
                None => say(con, "501 Syntax error in parameters or arguments"@),
            },
            Commands::Data => Outcome {
                con: ConnectionView { state: State::Data, ..con },
                lines: seq!["354 End data with <CR><LF>.<CR><LF>"@],
                action: Action::Continue,
            },
            Commands::Rset => Outcome {
                con: con.reset(
                    if con.state is Greet {
                        State::Greet
                    } else {
                        State::Idle
                    },
                ),
                lines: seq!["250 Ok"@],
                action: Action::Continue,
            },
            Commands::Noop => say(con, "250 Ok"@),
            Commands::Quit => Outcome {
                con: ConnectionView { state: State::Closed, ..con },
                lines: seq!["221 Bye"@],
                action: Action::Close,
            },
            Commands::StartTls => if con.secure {
                say(con, "503 Bad sequence of commands"@)
            } else {
                Outcome { con, lines: seq!["220 Ready to start TLS"@], action: Action::Upgrade }
            },
            Commands::Auth => auth_outcome(con, command, supply, hostname, allow_plaintext),
        }
    }
}

/// The answer to a line. While the lines of a message are read, every line
/// is one of the message, until the line that is a single dot ends it. Else
/// the line is a command.
pub open spec fn outcome(
    con: ConnectionView,
    line: Seq<char>,
    supply: SupplyView,
    hostname: Seq<char>,
    allow_plaintext: bool,
) -> Outcome {
    match con.state {
        State::Closed => Outcome { con, lines: seq![], action: Action::Close },
        State::Data => if line == "."@ {
            match supply {
                SupplyView::Delivered(true) => Outcome {
                    con: con.reset(State::Idle),
                    lines: seq!["250 Ok: queued"@],
                    action: Action::Continue,
                },
                SupplyView::Delivered(false) => Outcome {
                    con: con.reset(State::Idle),
                    lines: seq!["451 Requested action aborted: local error in processing"@],
                    action: Action::Continue,
                },
                _ => bug(con, hostname),
            }
        } else {
            Outcome {
                con: ConnectionView { data_buffer: con.data_buffer.push(unstuffed(line)), ..con },
                lines: seq![],
                action: Action::Continue,
            }
        },
        _ => match command_of(line) {
            Some(command) => command_outcome(con, command, supply, hostname, allow_plaintext),
            None => say(con, "500 Syntax error, command unrecognized"@),
        },
    }
}

/// What the line needs from outside before it can be answered.
pub open spec fn needed(con: ConnectionView, line: Seq<char>, allow_plaintext: bool) -> DemandView {
    match con.state {
        State::Closed => DemandView::Nothing,
        State::Data => if line == "."@ {
            DemandView::Deliver
        } else {
            DemandView::Nothing
        },
        _ => match command_of(line) {
            Some(command) => if !is_allowed(command.command, con.state) {
                DemandView::Nothing
            } else if command.command is Rcpt {
                match recipient_of(command) {
                    Some(address) => DemandView::Recipient { address },
                    None => DemandView::Nothing,
                }
            } else if command.command is Auth {
                match auth_credentials(con, command, allow_plaintext) {
                    Some((user, password)) => DemandView::Verify { user, password },
                    None => DemandView::Nothing,
                }
            } else {
                DemandView::Nothing
            },
            None => DemandView::Nothing,
        },
    }
}

/// The session when the server ends it, for a shutdown or an idle client:
/// one line, and the end.
pub open spec fn ended(con: ConnectionView, hostname: Seq<char>) -> Outcome {
    Outcome {
        con: ConnectionView { state: State::Closed, ..con },
        lines: seq!["421 "@ + hostname + " Service closing transmission channel"@],
        action: Action::Close,
    }
}

/// The session when the bytes of the client are no line: the bytes are
/// refused, and a message that was being read is dropped.
pub open spec fn unread(con: ConnectionView) -> Outcome {
    Outcome {
        con: if con.state is Data {
            con.reset(State::Idle)
        } else {
            con
        },
        lines: seq!["500 Syntax error, command unrecognized"@],
        action: Action::Continue,
    }
}

/// The state after a TLS negotiation: the session goes on, secure and with
/// no message under way, where it succeeded, and ends where it failed.
pub open spec fn after_upgrade(con: ConnectionView, succeeded: bool) -> ConnectionView {
    if succeeded {
        ConnectionView { secure: true, ..con.reset(State::Idle) }
    } else {
        ConnectionView { state: State::Closed, ..con }
    }
}

/// The line that greets a client, sent once when the connection is accepted.
pub fn greeting(hostname: &str) -> (r: String)
    ensures
        r@ == greeting_line(hostname@),
{
    let mut r = String::from_str("220 ");
    r.append(hostname);
    r.append(" ESMTP Service Ready");
    r
}

fn one_line(text: &str) -> (reply: Reply)
    ensures
        reply.lines.deep_view() == seq![text@],
        reply.action == Action::Continue,
{
    Reply { lines: single_line(text), action: Action::Continue }
}

fn read_recipient(command: &CommandData) -> (r: Option<String>)
    ensures
        text_view(r) == recipient_of(command@),
{
    match read_address("TO:", "TO:<", &command.arguments) {
        Some(address) => if address.as_str().unicode_len() > 0 {
            Some(address)
        } else {
            None
        },
        None => None,
    }
}

impl Data {
    /// What the line needs from outside before `exec` can answer it.
    pub fn demand(&self, line: &str, config: &Config) -> (d: Demand)
        ensures
            d@ == needed(self.con_state@, line@, config.allow_plaintext),
    {
        match self.con_state.state {
            State::Closed => Demand::Nothing,
            State::Data => if is_text(&chars_of(line), ".") {
                Demand::Deliver
            } else {
                Demand::Nothing
            },
            _ => match parse_command(line) {
                Some(command) => if !self.is_legal(command.command) {
                    Demand::Nothing
                } else {
                    match command.command {
                        Commands::Rcpt => match read_recipient(&command) {
                            Some(address) => Demand::Recipient { address },
                            None => Demand::Nothing,
                        },
                        Commands::Auth => {
                            if (self.con_state.secure || config.allow_plaintext)
                                && command.arguments.len() == 2 && is_word(
                                &chars_of(command.arguments[0].as_str()),
                                "PLAIN",
                            ) {
                                match read_plain(command.arguments[1].as_str()) {
                                    Some(credentials) => Demand::Verify {
                                        user: credentials.user,
                                        password: credentials.password,
                                    },
                                    None => Demand::Nothing,
                                }
                            } else {
                                Demand::Nothing
                            }
                        },
                        _ => Demand::Nothing,
                    }
                },
                None => Demand::Nothing,
            },
        }
    }

    fn bug(&mut self, hostname: &str) -> (reply: Reply)
        ensures
            reply.lines.deep_view() == bug(old(self).con_state@, hostname@).lines,
            reply.action == Action::Close,
            final(self).con_state@ == bug(old(self).con_state@, hostname@).con,
    {
        self.con_state.state = State::Closed;
        let mut line = String::from_str("421 ");
        line.append(hostname);
        line.append(" Service not available, closing transmission channel");
        let mut lines: Vec<String> = Vec::new();
        lines.push(line);
        assert(lines.deep_view() =~= bug(old(self).con_state@, hostname@).lines);
        Reply { lines, action: Action::Close }
    }

    fn auth(&mut self, command: &CommandData, supply: &Supply, config: &Config) -> (reply: Reply)
        ensures
            ({
                let o = auth_outcome(
                    old(self).con_state@,
                    command@,
                    supply@,
                    config.hostname@,
                    config.allow_plaintext,
                );
                &&& reply.lines.deep_view() == o.lines
                &&& reply.action == o.action
                &&& final(self).con_state@ == o.con
            }),
    {
        if !(self.con_state.secure || config.allow_plaintext) {
            one_line("530 Must issue a STARTTLS command first")
        } else if command.arguments.len() == 0 {
            one_line("501 Syntax error in parameters or arguments")
        } else if !is_word(&chars_of(command.arguments[0].as_str()), "PLAIN") {
            one_line("504 Unrecognized authentication type")
        } else if command.arguments.len() != 2 || read_plain(
            command.arguments[1].as_str(),
        ).is_none() {
            one_line("501 Syntax error in parameters or arguments")
        } else {
            match supply {
                Supply::Verified(AuthOutcome::Accepted(identity)) => {
                    self.con_state.username = Some(identity.clone());
                    one_line("235 Authentication successful")
                },
                Supply::Verified(AuthOutcome::BadCredentials) => one_line(
                    "535 Authentication credentials invalid",
                ),
                Supply::Verified(AuthOutcome::Unavailable) => one_line(
                    "454 Temporary authentication failure",
                ),
                _ => self.bug(config.hostname.as_str()),
            }
        }
    }

    fn command(&mut self, command: &CommandData, supply: &Supply, config: &Config) -> (reply: Reply)
        ensures
            ({
                let o = command_outcome(
                    old(self).con_state@,
                    command@,
                    supply@,
                    config.hostname@,
                    config.allow_plaintext,
                );
                &&& reply.lines.deep_view() == o.lines
                &&& reply.action == o.action
                &&& final(self).con_state@ == o.con
            }),
    {
        let hostname = config.hostname.as_str();
        if !self.is_legal(command.command) {
            return one_line("503 Bad sequence of commands");
        }
        match command.command {
            Commands::Ehlo => {
                let mut ehlo = Ehlo { data: self };
                let lines = ehlo.exec(hostname, command);
                Reply { lines, action: Action::Continue }
            },
            Commands::Helo => {
                if command.arguments.len() == 0 || command.arguments[0].as_str().is_empty() {
                    one_line("501 Syntax error in parameters or arguments")
                } else {
                    self.introduce(&command.arguments[0]);
                    let mut line = String::from_str("250 ");
                    line.append(hostname);
                    one_line(line.as_str())
                }
            },
            Commands::Mail => match read_address("FROM:", "FROM:<", &command.arguments) {
                Some(address) => {
                    self.con_state.state = State::Mail;
                    self.con_state.mail_from = Some(address);
                    one_line("250 Ok")
                },
                None => one_line("501 Syntax error in parameters or arguments"),
            },
            Commands::Rcpt => match read_recipient(command) {
                Some(address) => match supply {
                    Supply::Recipient(true) => {
                        let ghost before = self.con_state.rcpt_to.deep_view();
                        self.con_state.state = State::Rcpt;
                        self.con_state.rcpt_to.push(address);
                        assert(self.con_state.rcpt_to.deep_view() =~= before.push(address@));
                        one_line("250 Ok")
                    },
                    Supply::Recipient(false) => one_line("550 No such user here"),
                    _ => self.bug(hostname),
                },
                None => one_line("501 Syntax error in parameters or arguments"),
            },
            Commands::Data => {
                self.con_state.state = State::Data;
                one_line("354 End data with <CR><LF>.<CR><LF>")
            },
            Commands::Rset => {
                let state = if self.con_state.state == State::Greet {
                    State::Greet
                } else {
                    State::Idle
                };
                self.con_state.reset(state);
                one_line("250 Ok")
            },
            Commands::Noop => one_line("250 Ok"),
            Commands::Quit => {
                self.con_state.state = State::Closed;
                let reply = one_line("221 Bye");
                Reply { lines: reply.lines, action: Action::Close }
            },
            Commands::StartTls => {
                if self.con_state.secure {
                    one_line("503 Bad sequence of commands")
                } else {
                    let reply = one_line("220 Ready to start TLS");
                    Reply { lines: reply.lines, action: Action::Upgrade }
                }
            },
            Commands::Auth => self.auth(command, supply, config),
        }
    }

    /// Answers a line: the lines to send, what is to happen to the
    /// connection, and the state that the session is left in. `supply` is
    /// what came back for the line's `demand`.
    pub fn exec(&mut self, line: &str, supply: &Supply, config: &Config) -> (reply: Reply)
        ensures
            ({
                let o = outcome(
                    old(self).con_state@,
                    line@,
                    supply@,
                    config.hostname@,
                    config.allow_plaintext,
                );
                &&& reply.lines.deep_view() == o.lines
                &&& reply.action == o.action
                &&& final(self).con_state@ == o.con
            }),
    {
        match self.con_state.state {
            State::Closed => {
                let lines: Vec<String> = Vec::new();
                assert(lines.deep_view() =~= seq![]);
                Reply { lines, action: Action::Close }
            },
            State::Data => {
                let text = chars_of(line);
                if is_text(&text, ".") {
                    match supply {
                        Supply::Delivered(true) => {
                            self.con_state.reset(State::Idle);
                            one_line("250 Ok: queued")
                        },
                        Supply::Delivered(false) => {
                            self.con_state.reset(State::Idle);
                            one_line("451 Requested action aborted: local error in processing")
                        },
                        _ => self.bug(config.hostname.as_str()),
                    }
                } else {
                    let kept = if text.len() > 0 && text[0] == '.' {
                        let r = string_of(&copy_range(&text, 1, text.len()));
                        assert(text@.subrange(1, text.len() as int) =~= text@.skip(1));
                        r
                    } else {
                        string_of(&text)
                    };
                    let ghost before = self.con_state.data_buffer.deep_view();
                    self.con_state.data_buffer.push(kept);
                    assert(self.con_state.data_buffer.deep_view() =~= before.push(kept@));
                    let lines: Vec<String> = Vec::new();
                    assert(lines.deep_view() =~= seq![]);
                    Reply { lines, action: Action::Continue }
                }
            },
            _ => match parse_command(line) {
                Some(command) => self.command(&command, supply, config),
                None => one_line("500 Syntax error, command unrecognized"),
            },
        }
    }

    /// Ends the session because the server shuts down or the client was
    /// idle for too long.
    pub fn shutdown(&mut self, config: &Config) -> (reply: Reply)
        ensures
            ({
                let o = ended(old(self).con_state@, config.hostname@);
                &&& reply.lines.deep_view() == o.lines
                &&& reply.action == o.action
                &&& final(self).con_state@ == o.con
            }),
    {
        self.con_state.state = State::Closed;
        let mut line = String::from_str("421 ");
        line.append(config.hostname.as_str());
        line.append(" Service closing transmission channel");
        let mut lines: Vec<String> = Vec::new();
        lines.push(line);
        assert(lines.deep_view() =~= ended(old(self).con_state@, config.hostname@).lines);
        Reply { lines, action: Action::Close }
    }

    /// Refuses bytes of the client that are no line.
    pub fn unreadable(&mut self) -> (reply: Reply)
        ensures
            ({
                let o = unread(old(self).con_state@);
                &&& reply.lines.deep_view() == o.lines
                &&& reply.action == o.action
                &&& final(self).con_state@ == o.con
            }),
    {
        if self.con_state.state == State::Data {
            self.con_state.reset(State::Idle);
        }
        one_line("500 Syntax error, command unrecognized")
    }

    /// Records the result of the TLS negotiation that a STARTTLS command
    /// began.
    pub fn upgraded(&mut self, succeeded: bool)
        ensures
            final(self).con_state@ == after_upgrade(old(self).con_state@, succeeded),
    {
        if succeeded {
            self.con_state.reset(State::Idle);
            self.con_state.secure = true;
        } else {
            self.con_state.state = State::Closed;
        }
    }
}


/// While the lines of a message are read, a line other than the single dot
/// is taken into the message, without its stuffed dot, and nothing is
/// answered: no command is read until the message has ended.
pub proof fn lemma_data_lines_are_kept(
    con: ConnectionView,
    line: Seq<char>,
    supply: SupplyView,
    hostname: Seq<char>,
    allow_plaintext: bool,
)
    requires
        con.state is Data,
        line != "."@,
    ensures
        outcome(con, line, supply, hostname, allow_plaintext).lines.len() == 0,
        outcome(con, line, supply, hostname, allow_plaintext).con.state is Data,
        outcome(con, line, supply, hostname, allow_plaintext).con.data_buffer
            == con.data_buffer.push(unstuffed(line)),
        needed(con, line, allow_plaintext) is Nothing,
{
}

/// No line makes a secure connection insecure, and only the end of a TLS
/// negotiation makes one secure.
pub proof fn lemma_secure_stays(
    con: ConnectionView,
    line: Seq<char>,
    supply: SupplyView,
    hostname: Seq<char>,
    allow_plaintext: bool,
    succeeded: bool,
)
    ensures
        outcome(con, line, supply, hostname, allow_plaintext).con.secure == con.secure,
        con.secure ==> after_upgrade(con, succeeded).secure,
{
}

/// The server begins to read a message only after a sender and at least
/// one recipient were accepted.
pub proof fn lemma_data_needs_envelope(
    con: ConnectionView,
    line: Seq<char>,
    supply: SupplyView,
    hostname: Seq<char>,
    allow_plaintext: bool,
)
    requires
        !(con.state is Data),
        outcome(con, line, supply, hostname, allow_plaintext).con.state is Data,
    ensures
        con.state is Rcpt,
{
}

} // verus!
