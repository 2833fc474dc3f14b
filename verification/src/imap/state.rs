//! The state of one IMAP connection, and which command is legal in which
//! state.

use vstd::prelude::*;
use vstd::string::StringExecFns;
use crate::imap::command::{tagged, tagged_reply, Commands};

verus! {

/// Where a session stands. `Selected` holds the mailbox name as the client
/// gave it and the mailbox's validity number.
#[derive(Clone, Debug)]
pub enum State {
    NotAuthenticated,
    Authenticated,
    Selected(String, u32),
    Logout,
}

/// What a `State` stands for.
pub enum StateView {
    NotAuthenticated,
    Authenticated,
    Selected(Seq<char>, u32),
    Logout,
}

impl View for State {
    type V = StateView;

    open spec fn view(&self) -> StateView {
        match self {
            State::NotAuthenticated => StateView::NotAuthenticated,
            State::Authenticated => StateView::Authenticated,
            State::Selected(folder, validity) => StateView::Selected(folder@, *validity),
            State::Logout => StateView::Logout,
        }
    }
}

/// What a `Connection` stands for.
pub struct ConnectionView {
    pub state: StateView,
    pub secure: bool,
    pub username: Option<Seq<char>>,
}

impl ConnectionView {
    /// A session that is past login knows its user, and a selected mailbox
    /// has a name.
    pub open spec fn wf(self) -> bool {
        match self.state {
            StateView::NotAuthenticated => true,
            StateView::Authenticated => self.username is Some,
            StateView::Selected(folder, _) => self.username is Some && folder.len() > 0,
            StateView::Logout => true,
        }
    }

    /// The state of a connection that was just accepted.
    pub open spec fn fresh(secure: bool) -> ConnectionView {
        ConnectionView { state: StateView::NotAuthenticated, secure, username: None }
    }
}

/// The record of one connection.
#[derive(Clone, Debug)]
pub struct Connection {
    pub state: State,
    pub secure: bool,
    pub username: Option<String>,
}

impl View for Connection {
    type V = ConnectionView;

    open spec fn view(&self) -> ConnectionView {
        ConnectionView {
            state: self.state@,
            secure: self.secure,
            username: match self.username {
                Some(name) => Some(name@),
                None => None,
            },
        }
    }
}

impl Connection {
    /// The record of a connection that was just accepted.
    pub fn new(secure: bool) -> (con: Connection)
        ensures
            con@ == ConnectionView::fresh(secure),
            con@.wf(),
    {
        Connection { state: State::NotAuthenticated, secure, username: None }
    }
}

/// What the commands of one connection share.
#[derive(Clone, Debug)]
pub struct Data {
    pub con_state: Connection,
}

/// The states in which a command is legal.
pub open spec fn is_allowed(command: Commands, state: StateView) -> bool {
    match command {
        Commands::Capability | Commands::Noop | Commands::Logout => !(state is Logout),
        Commands::StartTls | Commands::Login | Commands::Authenticate => state
            is NotAuthenticated,
        Commands::List
        | Commands::Select
        | Commands::Examine
        | Commands::Create
        | Commands::Append => state is Authenticated || state is Selected,
        Commands::Uid
        | Commands::Close
        | Commands::Unselect
        | Commands::Check
        | Commands::Fetch
        | Commands::Store
        | Commands::Copy
        | Commands::Move
        | Commands::Expunge
        | Commands::Search => state is Selected,
    }
}

/// The name of a state in an answer.
pub open spec fn state_name(state: StateView) -> Seq<char> {
    match state {
        StateView::NotAuthenticated => "NotAuthenticated"@,
        StateView::Authenticated => "Authenticated"@,
        StateView::Selected(_, _) => "Selected"@,
        StateView::Logout => "Logout"@,
    }
}

/// The line that refuses a command that is not legal in the state of the
/// session: it names the state.
pub open spec fn not_allowed(tag: Seq<char>, state: StateView) -> Seq<char> {
    tagged(tag, "BAD Command not allowed in "@ + state_name(state))
}

fn state_text(state: &State) -> (r: &'static str)
    ensures
        r@ == state_name(state@),
{
    match state {
        State::NotAuthenticated => "NotAuthenticated",
        State::Authenticated => "Authenticated",
        State::Selected(_, _) => "Selected",
        State::Logout => "Logout",
    }
}

impl Data {
    /// The record of a connection that was just accepted.
    pub fn new(secure: bool) -> (data: Data)
        ensures
            data.con_state@ == ConnectionView::fresh(secure),
    {
        Data { con_state: Connection::new(secure) }
    }

    /// Whether the command is legal in the state of the session.
    pub fn is_legal(&self, command: Commands) -> (r: bool)
        ensures
            r == is_allowed(command, self.con_state@.state),
    {
        match command {
            Commands::Capability | Commands::Noop | Commands::Logout => {
                match &self.con_state.state {
                    State::Logout => false,
                    _ => true,
                }
            },
            Commands::StartTls | Commands::Login | Commands::Authenticate => {
                match &self.con_state.state {
                    State::NotAuthenticated => true,
                    _ => false,
                }
            },
            Commands::List
            | Commands::Select
            | Commands::Examine
            | Commands::Create
            | Commands::Append => match &self.con_state.state {
                State::Authenticated => true,
                State::Selected(_, _) => true,
                _ => false,
            },
            Commands::Uid
            | Commands::Close
            | Commands::Unselect
            | Commands::Check
            | Commands::Fetch
            | Commands::Store
            | Commands::Copy
            | Commands::Move
            | Commands::Expunge
            | Commands::Search => match &self.con_state.state {
                State::Selected(_, _) => true,
                _ => false,
            },
        }
    }

    /// The answer that refuses a command that is not legal in the state of
    /// the session.
    pub fn refuse(&self, tag: &String) -> (lines: Vec<String>)
        ensures
            lines.deep_view() == seq![not_allowed(tag@, self.con_state@.state)],
    {
        let mut text = String::from_str("BAD Command not allowed in ");
        text.append(state_text(&self.con_state.state));
        tagged_reply(tag, text.as_str())
    }
}

} // verus!
