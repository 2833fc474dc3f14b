//! The state of one SMTP connection, and which command is in sequence in
//! which state.

use vstd::prelude::*;
use crate::smtp::command::Commands;
use crate::text::text_view;

verus! {

/// Where the exchange of a message stands.
#[derive(Clone, Copy, Debug, PartialEq, Eq, Structural)]
pub enum State {
    /// The client has not said EHLO or HELO yet.
    Greet,
    /// No message is under way.
    Idle,
    /// The sender is known.
    Mail,
    /// At least one recipient is known.
    Rcpt,
    /// The lines of the message are being read.
    Data,
    Closed,
}

/// What a `Connection` stands for.
pub struct ConnectionView {
    pub state: State,
    pub secure: bool,
    pub username: Option<Seq<char>>,
    pub ehlo: Option<Seq<char>>,
    pub mail_from: Option<Seq<char>>,
    pub rcpt_to: Seq<Seq<char>>,
    pub data_buffer: Seq<Seq<char>>,
}

impl ConnectionView {
    /// The state of a connection that was just accepted.
    pub open spec fn fresh(secure: bool) -> ConnectionView {
        ConnectionView {
            state: State::Greet,
            secure,
            username: None,
            ehlo: None,
            mail_from: None,
            rcpt_to: seq![],
            data_buffer: seq![],
        }
    }

    /// The same session with no message under way.
    pub open spec fn reset(self, state: State) -> ConnectionView {
        ConnectionView { state, mail_from: None, rcpt_to: seq![], data_buffer: seq![], ..self }
    }
}

/// The record of one connection: the session and the envelope of the
/// message that is under way.
#[derive(Clone, Debug)]
pub struct Connection {
    pub state: State,
    pub secure: bool,
    pub username: Option<String>,
    /// The name that the client gave with EHLO or HELO.
    pub ehlo: Option<String>,
    pub mail_from: Option<String>,
    pub rcpt_to: Vec<String>,
    /// The lines of the message read so far.
    pub data_buffer: Vec<String>,
}

impl View for Connection {
    type V = ConnectionView;

    open spec fn view(&self) -> ConnectionView {
        ConnectionView {
            state: self.state,
            secure: self.secure,
            username: text_view(self.username),
            ehlo: text_view(self.ehlo),
            mail_from: text_view(self.mail_from),
            rcpt_to: self.rcpt_to.deep_view(),
            data_buffer: self.data_buffer.deep_view(),
        }
    }
}

impl Connection {
    /// The record of a connection that was just accepted.
    pub fn new(secure: bool) -> (con: Connection)
        ensures
            con@ == ConnectionView::fresh(secure),
    {
        let con = Connection {
            state: State::Greet,
            secure,
            username: None,
            ehlo: None,
            mail_from: None,
            rcpt_to: Vec::new(),
            data_buffer: Vec::new(),
        };
        assert(con.rcpt_to.deep_view() =~= seq![]);
        assert(con.data_buffer.deep_view() =~= seq![]);
        con
    }

    /// Forgets the message that is under way.
    pub fn reset(&mut self, state: State)
        ensures
            final(self)@ == old(self)@.reset(state),
    {
        self.state = state;
        self.mail_from = None;
        self.rcpt_to = Vec::new();
        self.data_buffer = Vec::new();
        assert(self.rcpt_to.deep_view() =~= seq![]);
        assert(self.data_buffer.deep_view() =~= seq![]);
    }
}

/// The states in which a command is in sequence.
pub open spec fn is_allowed(command: Commands, state: State) -> bool {
    match command {
        Commands::Ehlo | Commands::Helo => state is Greet || state is Idle,
        Commands::Mail | Commands::Auth | Commands::StartTls => state is Idle,
        Commands::Rcpt => state is Mail || state is Rcpt,
        Commands::Data => state is Rcpt,
        Commands::Rset | Commands::Noop | Commands::Quit => !(state is Data) && !(state
            is Closed),
    }
}

/// The session after EHLO or HELO: no message under way, the client's name
/// recorded.
pub open spec fn introduced(con: ConnectionView, name: Seq<char>) -> ConnectionView {
    ConnectionView { ehlo: Some(name), ..con.reset(State::Idle) }
}

/// What the commands of one connection share.
#[derive(Clone, Debug)]
pub struct Data {
    pub con_state: Connection,
}

impl Data {
    /// The record of a connection that was just accepted.
    pub fn new(secure: bool) -> (data: Data)
        ensures
            data.con_state@ == ConnectionView::fresh(secure),
    {
        Data { con_state: Connection::new(secure) }
    }

    /// Whether the command is in sequence in the state of the session.
    pub fn is_legal(&self, command: Commands) -> (r: bool)
        ensures
            r == is_allowed(command, self.con_state.state),
    {
        let state = self.con_state.state;
        match command {
            Commands::Ehlo | Commands::Helo => state == State::Greet || state == State::Idle,
            Commands::Mail | Commands::Auth | Commands::StartTls => state == State::Idle,
            Commands::Rcpt => state == State::Mail || state == State::Rcpt,
            Commands::Data => state == State::Rcpt,
            Commands::Rset | Commands::Noop | Commands::Quit => state != State::Data && state
                != State::Closed,
        }
    }

    /// Records the name that the client gave and forgets the message that
    /// is under way.
    pub fn introduce(&mut self, name: &String)
        ensures
            final(self).con_state@ == introduced(old(self).con_state@, name@),
    {
        self.con_state.reset(State::Idle);
        self.con_state.ehlo = Some(name.clone());
    }
}

} // verus!
